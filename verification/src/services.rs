use crate::domain::{GithubUser, Project};
use crate::realtime::{EventBus, ProjectStream};
use crate::AppError;
use vstd::prelude::*;
use vstd::string::StringExecFns;

verus! {

/// What a project lookup answers the requesting subject: the project when
/// the requester owns it, and one and the same not-found answer both when no
/// such project exists and when it belongs to someone else.
pub open spec fn access_outcome(project: Option<Project>, requester: u128) -> Result<
    Project,
    Seq<char>,
> {
    match project {
        Some(p) => if p.user_id == requester {
            Ok(p)
        } else {
            Err("Project not found"@)
        },
        None => Err("Project not found"@),
    }
}

/// A project owned by another subject is reported exactly as an absent one:
/// the two outcomes are indistinguishable, so existence is not leaked.
pub proof fn lemma_foreign_project_reads_as_absent(p: Project, requester: u128)
    requires
        p.user_id != requester,
    ensures
        access_outcome(Some(p), requester) == access_outcome(None, requester),
{
}

/// Admit the requester to a project it owns; report the one not-found answer
/// otherwise, whether the project is absent or foreign.
pub fn check_project_access(project: Option<Project>, requester: u128) -> (r: Result<
    Project,
    AppError,
>)
    ensures
        match access_outcome(project, requester) {
            Ok(p) => r matches Ok(rp) && rp == p,
            Err(m) => r matches Err(e) && e matches AppError::NotFound(em) && em@ == m,
        },
{
    match project {
        Some(p) => {
            if p.user_id == requester {
                Ok(p)
            } else {
                Err(AppError::NotFound(String::from_str("Project not found")))
            }
        },
        None => Err(AppError::NotFound(String::from_str("Project not found"))),
    }
}

/// Open a long-lived event stream over `bus` for a project, on behalf of an
/// authenticated subject: only the owner is admitted, and the stream is
/// bound to that one project from its first event on; anyone else gets the
/// same not-found answer as for an absent project.
pub fn open_stream(bus: &EventBus, project: Option<Project>, identity: u128) -> (r: Result<
    ProjectStream,
    AppError,
>)
    requires
        bus.wf(),
    ensures
        match access_outcome(project, identity) {
            Ok(p) => r matches Ok(s) && s.project_spec() == p.id && s.cursor()
                == bus.history().len(),
            Err(m) => r matches Err(e) && e matches AppError::NotFound(em) && em@ == m,
        },
{
    let p = check_project_access(project, identity)?;
    Ok(ProjectStream::open(bus, p.id))
}

/// The findings one placeholder scan reports, as (severity, description)
/// pairs, in the order they are recorded and published.
pub fn scan_findings_plan() -> (r: Vec<(String, String)>)
    ensures
        r@.len() == 2,
        r@[0].0@ == "high"@,
        r@[0].1@ == "Detected outdated OpenSSL dependency in Cargo.lock"@,
        r@[1].0@ == "medium"@,
        r@[1].1@ == "Missing security headers in API response"@,
{
    let mut v: Vec<(String, String)> = Vec::new();
    v.push(
        (
            String::from_str("high"),
            String::from_str("Detected outdated OpenSSL dependency in Cargo.lock"),
        ),
    );
    v.push(
        (
            String::from_str("medium"),
            String::from_str("Missing security headers in API response"),
        ),
    );
    v
}

/// Whether `needle` occurs as a contiguous run within `hay`.
pub open spec fn contains_seq(hay: Seq<char>, needle: Seq<char>) -> bool {
    exists|i: int|
        0 <= i <= hay.len() - needle.len() && #[trigger] hay.subrange(i, i + needle.len())
            =~= needle
}

/// Whether two strings hold the same characters.
fn str_eq(a: &str, b: &str) -> (r: bool)
    ensures
        r == (a@ == b@),
{
    let sa = String::from_str(a);
    let sb = String::from_str(b);
    sa == sb
}

/// Whether `needle` occurs within `hay`.
fn contains_sub(hay: &str, needle: &str) -> (r: bool)
    ensures
        r == contains_seq(hay@, needle@),
{
    let hn = hay.unicode_len();
    let nn = needle.unicode_len();
    if nn > hn {
        return false;
    }
    let mut i: usize = 0;
    while i <= hn - nn
        invariant
            nn <= hn == hay@.len(),
            nn == needle@.len(),
            0 <= i <= hn - nn + 1,
            forall|k: int|
                0 <= k < i ==> #[trigger] hay@.subrange(k, k + needle@.len()) !~= needle@,
        decreases hn + 1 - i,
    {
        let mut j: usize = 0;
        let mut all_eq = true;
        while j < nn
            invariant
                nn <= hn == hay@.len(),
                nn == needle@.len(),
                0 <= i <= hn - nn,
                0 <= j <= nn,
                all_eq ==> forall|k: int| 0 <= k < j ==> hay@[i + k] == #[trigger] needle@[k],
                !all_eq ==> hay@.subrange(i as int, i + needle@.len()) !~= needle@,
            decreases nn - j,
        {
            if hay.get_char(i + j) != needle.get_char(j) {
                proof {
                    assert(hay@.subrange(i as int, i + needle@.len())[j as int] == hay@[i + j]);
                }
                all_eq = false;
            }
            j = j + 1;
        }
        if all_eq {
            proof {
                assert(hay@.subrange(i as int, i + needle@.len()) =~= needle@);
            }
            return true;
        }
        i = i + 1;
    }
    proof {
        assert forall|k: int|
            0 <= k <= hay@.len() - needle@.len() implies #[trigger] hay@.subrange(
            k,
            k + needle@.len(),
        ) !~= needle@ by {}
    }
    false
}

/// What deleting a project reports, given how many rows the store removed:
/// deleting what was never there (or was someone else's) is the same
/// not-found answer as reading it.
pub fn delete_outcome(rows_affected: u64) -> (r: Result<(), AppError>)
    ensures
        rows_affected == 0 ==> (r matches Err(e) && e.is_project_not_found()),
        rows_affected > 0 ==> (r matches Ok(u) && u == ()),
{
    if rows_affected == 0 {
        Err(AppError::NotFound(String::from_str("Project not found")))
    } else {
        Ok(())
    }
}

/// What the identity-exchange reports for each way the provider call can
/// end: no response at all (a network error) and a non-success status are
/// both authentication failures, never internal ones; a success whose body
/// cannot be read as a profile is an internal failure; otherwise the
/// profile.
pub fn profile_outcome(responded: bool, status_ok: bool, parsed: Option<GithubUser>) -> (r: Result<
    GithubUser,
    AppError,
>)
    ensures
        match r {
            Ok(u) => responded && status_ok && (parsed matches Some(p) && u == p),
            Err(e) => if !responded {
                e matches AppError::AuthError(m) && m@ == "GitHub API error"@
            } else if !status_ok {
                e matches AppError::AuthError(m) && m@ == "Invalid GitHub token"@
            } else {
                parsed is None && e.is_internal()
            },
        },
{
    if !responded {
        return Err(AppError::AuthError(String::from_str("GitHub API error")));
    }
    if !status_ok {
        return Err(AppError::AuthError(String::from_str("Invalid GitHub token")));
    }
    match parsed {
        Some(u) => Ok(u),
        None => Err(
            AppError::InternalServerError(String::from_str("Failed to parse GitHub user")),
        ),
    }
}

/// The identity provider's canned answer: the fixed test profile, returned
/// exactly for the test token against the hosted test store, and nothing
/// for any other caller, who must go to the real provider.
pub fn mock_profile(access_token: &str, database_url: &str) -> (r: Option<GithubUser>)
    ensures
        match r {
            Some(u) => {
                &&& access_token@ == "mock-token"@
                &&& contains_seq(database_url@, "neondb"@)
                &&& u.id == 123456789
                &&& u.login@ == "mock_user"@
                &&& u.email matches Some(e) && e@ == "mock@example.com"@
            },
            None => !(access_token@ == "mock-token"@ && contains_seq(database_url@, "neondb"@)),
        },
{
    if str_eq(access_token, "mock-token") && contains_sub(database_url, "neondb") {
        Some(
            GithubUser {
                id: 123456789,
                login: String::from_str("mock_user"),
                email: Some(String::from_str("mock@example.com")),
            },
        )
    } else {
        None
    }
}

} // verus!
