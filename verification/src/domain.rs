use crate::AppError;
use vstd::prelude::*;
use vstd::string::StringExecFns;

verus! {

/// Process configuration, immutable after startup.
#[derive(Debug)]
pub struct Config {
    pub database_url: String,
    pub jwt_secret: String,
    pub port: u16,
}

/// The digits of a configured port text: everything after an optional
/// leading plus sign.
pub open spec fn port_digits(s: Seq<char>) -> Seq<char> {
    if s.len() >= 1 && s[0] == '+' {
        s.skip(1)
    } else {
        s
    }
}

/// Whether a configured port text denotes a `u16`: an optional plus sign,
/// then one or more decimal digits (leading zeros allowed, as `u16` parsing
/// allows them), denoting at most `u16::MAX`.
pub open spec fn is_port_text(s: Seq<char>) -> bool {
    &&& port_digits(s).len() > 0
    &&& forall|i: int| 0 <= i < port_digits(s).len() ==> crate::numeral::is_digit(
        #[trigger] port_digits(s)[i],
    )
    &&& crate::numeral::dec_val(port_digits(s)) <= u16::MAX
}

impl Config {
    /// The port the service binds: the value of the configured text when it
    /// denotes a `u16`, the default when nothing is configured, and a
    /// configuration error otherwise.
    pub fn port_from_value(configured: Option<&str>) -> (r: Result<u16, AppError>)
        ensures
            match configured {
                None => r matches Ok(p) && p == 8080u16,
                Some(s) => {
                    if is_port_text(s@) {
                        r matches Ok(p) && p == crate::numeral::dec_val(port_digits(s@))
                    } else {
                        r matches Err(e) && e.is_internal()
                    }
                },
            },
    {
        let s = match configured {
            None => {
                return Ok(8080);
            },
            Some(s) => s,
        };
        let n = s.unicode_len();
        let start: usize = if n >= 1 && s.get_char(0) == '+' {
            1
        } else {
            0
        };
        let ghost digits = port_digits(s@);
        proof {
            assert(digits =~= s@.subrange(start as int, n as int));
        }
        if start == n {
            return Err(AppError::InternalServerError(String::from_str("PORT must be a valid u16")));
        }
        let mut acc: u32 = 0;
        let mut i: usize = start;
        while i < n
            invariant
                configured == Some(s),
                start <= i <= n == s@.len(),
                start <= 1,
                digits == port_digits(s@),
                digits == s@.subrange(start as int, n as int),
                acc == crate::numeral::dec_val(digits.take(i - start)),
                acc <= u16::MAX,
                forall|j: int| 0 <= j < i - start ==> crate::numeral::is_digit(
                    #[trigger] digits[j],
                ),
            decreases n - i,
        {
            let c = s.get_char(i);
            proof {
                assert(digits[i - start] == s@[i as int]);
            }
            if !('0' <= c && c <= '9') {
                proof {
                    assert(port_digits(s@)[i - start] == c);
                    assert(!is_port_text(s@));
                }
                return Err(
                    AppError::InternalServerError(String::from_str("PORT must be a valid u16")),
                );
            }
            let d = (c as u32) - 48;
            proof {
                assert(digits.take(i + 1 - start).drop_last() =~= digits.take(i - start));
                assert(digits.take(i + 1 - start).last() == c);
            }
            acc = acc * 10 + d;
            if acc > u16::MAX as u32 {
                proof {
                    crate::numeral::lemma_dec_val_prefix_le(digits, i + 1 - start);
                    assert(crate::numeral::dec_val(port_digits(s@)) > u16::MAX);
                    assert(!is_port_text(s@));
                }
                return Err(
                    AppError::InternalServerError(String::from_str("PORT must be a valid u16")),
                );
            }
            i = i + 1;
        }
        proof {
            assert(digits.take(n - start) =~= digits);
        }
        Ok(acc as u16)
    }
}

/// A registered account. Identifiers are carried as their 128-bit value.
#[derive(Debug)]
pub struct User {
    pub id: u128,
    pub github_id: i64,
    pub username: String,
    pub email: Option<String>,
    pub created_at: i64,
}

/// A project row, owned by the user whose id is `user_id`.
#[derive(Debug)]
pub struct Project {
    pub id: u128,
    pub user_id: u128,
    pub name: String,
    pub repository_url: String,
    pub created_at: i64,
}

/// A generated CI pipeline configuration attached to a project.
#[derive(Debug)]
pub struct Pipeline {
    pub id: u128,
    pub project_id: u128,
    pub yaml_config: String,
    pub created_at: i64,
}

/// One recorded security finding for a project.
#[derive(Debug)]
pub struct SecurityFinding {
    pub id: u128,
    pub project_id: u128,
    pub severity: String,
    pub description: String,
    pub resolved: bool,
    pub created_at: i64,
}

/// Request body for creating a project.
#[derive(Debug)]
pub struct CreateProjectRequest {
    pub name: String,
    pub repository_url: String,
}

/// Request body for the identity-exchange endpoint.
#[derive(Debug)]
pub struct AuthGithubRequest {
    pub access_token: String,
}

/// Response of the identity-exchange endpoint: a session token and its user.
#[derive(Debug)]
pub struct AuthResponse {
    pub token: String,
    pub user: User,
}

/// Profile returned by the identity provider.
#[derive(Debug)]
pub struct GithubUser {
    pub id: i64,
    pub login: String,
    pub email: Option<String>,
}

/// Body of the health endpoint.
#[derive(Debug)]
pub struct HealthResponse {
    status: String,
    version: String,
}

impl HealthResponse {
    pub closed spec fn status_spec(&self) -> Seq<char> {
        self.status@
    }

    pub closed spec fn version_spec(&self) -> Seq<char> {
        self.version@
    }

    /// A healthy report for the given build version.
    pub fn new(version: String) -> (r: HealthResponse)
        ensures
            r.status_spec() == "ok"@,
            r.version_spec() == version@,
    {
        HealthResponse { status: String::from_str("ok"), version }
    }

    pub fn status(&self) -> (r: &String)
        ensures
            r@ == self.status_spec(),
    {
        &self.status
    }

    pub fn version(&self) -> (r: &String)
        ensures
            r@ == self.version_spec(),
    {
        &self.version
    }
}

/// Correlation id attached to each request and echoed in the response.
#[derive(Debug, Clone)]
pub struct RequestId(pub String);

} // verus!
