use crate::numeral::{
    dec_chars, dec_val, is_canonical_dec, is_digit, lemma_dec_chars_wf, parse_decimal,
    push_decimal,
};
use crate::AppError;
use vstd::prelude::*;
use vstd::string::StringExecFns;

verus! {

/// How long a session token stays valid, in seconds.
pub const SESSION_LIFETIME_SECS: u64 = 86400;

/// The claims a session token carries: subject identity, issue time and
/// expiry, both as Unix timestamps.
#[derive(Clone, Copy, PartialEq, Eq, Structural, Debug)]
pub struct Claims {
    pub sub: u128,
    pub exp: u64,
    pub iat: u64,
}

/// The signature jsonwebtoken's HMAC-SHA256 signer produces for a message
/// under a secret. A deterministic function of both; its value is known only
/// to the signer.
pub uninterp spec fn sign_of(msg: Seq<char>, secret: Seq<char>) -> Seq<char>;

/// Whether jsonwebtoken's HMAC-SHA256 verifier accepts `sig` as a signature
/// of `msg` under `secret`. A deterministic function of the three.
pub uninterp spec fn hmac_ok(sig: Seq<char>, msg: Seq<char>, secret: Seq<char>) -> bool;

/// Relies on jsonwebtoken::crypto::sign with Algorithm::HS256 and a key from
/// EncodingKey::from_secret: signing cannot fail on this path (the signer
/// factory checks only that the key family is HMAC, which from_secret always
/// sets, HMAC-SHA256 accepts a key of any length, and signing itself is
/// infallible), the signature depends on the message and the secret alone,
/// and jsonwebtoken::crypto::verify accepts it for the same message and
/// secret, since it recomputes and compares that very signature.
#[verifier::external_body]
fn hmac_sign(msg: &str, secret: &str) -> (r: String)
    ensures
        r@ == sign_of(msg@, secret@),
        hmac_ok(r@, msg@, secret@),
{
    jsonwebtoken::crypto::sign(
        msg.as_bytes(),
        &jsonwebtoken::EncodingKey::from_secret(secret.as_bytes()),
        jsonwebtoken::Algorithm::HS256,
    ).unwrap_or_default()
}

/// Relies on jsonwebtoken::crypto::verify with Algorithm::HS256 and a key
/// from DecodingKey::from_secret: it recomputes the message's signature
/// under the secret and compares it against `sig`, so its outcome is a
/// deterministic function of the three arguments; a failure of its own
/// (an undecodable signature) rejects.
#[verifier::external_body]
fn hmac_verify(sig: &str, msg: &str, secret: &str) -> (r: bool)
    ensures
        r == hmac_ok(sig@, msg@, secret@),
{
    jsonwebtoken::crypto::verify(
        sig,
        msg.as_bytes(),
        &jsonwebtoken::DecodingKey::from_secret(secret.as_bytes()),
        jsonwebtoken::Algorithm::HS256,
    ).unwrap_or(false)
}

/// Relies on chrono::Utc::now for the current Unix timestamp. Nothing is
/// assumed of the value.
#[verifier::external_body]
fn now_ts() -> u64 {
    chrono::Utc::now().timestamp() as u64
}

/// Relies on String's FromIterator over char: collecting yields exactly the
/// given characters.
#[verifier::external_body]
fn chars_to_string(v: &Vec<char>) -> (r: String)
    ensures
        r@ == v@,
{
    v.iter().collect()
}

/// The signed part of a token: the three claims as decimal numerals,
/// separated by dots.
pub open spec fn payload_of(sub: u128, iat: u64, exp: u64) -> Seq<char> {
    dec_chars(sub as nat) + seq!['.'] + dec_chars(iat as nat) + seq!['.'] + dec_chars(exp as nat)
}

/// The session token issued for the given claims under `secret`: the payload
/// followed by its signature, dot-separated.
pub open spec fn token_of(sub: u128, iat: u64, exp: u64, secret: Seq<char>) -> Seq<char> {
    payload_of(sub, iat, exp) + seq!['.'] + sign_of(payload_of(sub, iat, exp), secret)
}

/// The position of the first dot of `s` at or after `from`, if any.
pub open spec fn find_dot(s: Seq<char>, from: int) -> Option<int>
    decreases s.len() - from
        when 0 <= from
{
    if from >= s.len() {
        None
    } else if s[from] == '.' {
        Some(from)
    } else {
        find_dot(s, from + 1)
    }
}

/// The claims a token is accepted as carrying under `secret`: the token must
/// consist of three canonical in-range decimal numerals and a signature,
/// dot-separated, and the signature must verify for the numeral part. A
/// token is binary valid or invalid; nothing else is accepted.
pub open spec fn claims_of_token(token: Seq<char>, secret: Seq<char>) -> Option<Claims> {
    match find_dot(token, 0) {
        None => None,
        Some(d1) => match find_dot(token, d1 + 1) {
            None => None,
            Some(d2) => match find_dot(token, d2 + 1) {
                None => None,
                Some(d3) => {
                    let sub_s = token.subrange(0, d1);
                    let iat_s = token.subrange(d1 + 1, d2);
                    let exp_s = token.subrange(d2 + 1, d3);
                    let msg = token.subrange(0, d3);
                    let sig = token.subrange(d3 + 1, token.len() as int);
                    if is_canonical_dec(sub_s) && is_canonical_dec(iat_s) && is_canonical_dec(exp_s)
                        && dec_val(sub_s) <= u128::MAX && dec_val(iat_s) <= u64::MAX && dec_val(
                        exp_s,
                    ) <= u64::MAX && hmac_ok(sig, msg, secret) {
                        Some(
                            Claims {
                                sub: dec_val(sub_s) as u128,
                                exp: dec_val(exp_s) as u64,
                                iat: dec_val(iat_s) as u64,
                            },
                        )
                    } else {
                        None
                    }
                },
            },
        },
    }
}

/// What verification at time `now` accepts: the token's claims when they
/// decode and have not expired, and nothing otherwise.
pub open spec fn verify_outcome(token: Seq<char>, secret: Seq<char>, now: u64) -> Option<Claims> {
    match claims_of_token(token, secret) {
        Some(c) => if c.exp >= now {
            Some(c)
        } else {
            None
        },
        None => None,
    }
}

/// `find_dot` finds `i` exactly when `i` holds the first dot at or after
/// `from`.
proof fn lemma_find_dot_at(s: Seq<char>, from: int, i: int)
    requires
        0 <= from <= i < s.len(),
        s[i] == '.',
        forall|j: int| from <= j < i ==> s[j] != '.',
    ensures
        find_dot(s, from) == Some(i),
    decreases i - from,
{
    if from < i {
        lemma_find_dot_at(s, from + 1, i);
    }
}

/// Digits are never dots.
proof fn lemma_digits_not_dot(s: Seq<char>)
    requires
        forall|i: int| 0 <= i < s.len() ==> is_digit(#[trigger] s[i]),
    ensures
        forall|i: int| 0 <= i < s.len() ==> #[trigger] s[i] != '.',
{
}

/// A token issued for given claims is accepted as carrying exactly those
/// claims, under any secret whose verifier accepts the signer's signature
/// of the payload, which the signer's own secret does.
pub proof fn lemma_canonical_token_parses(sub: u128, iat: u64, exp: u64, secret: Seq<char>)
    requires
        hmac_ok(
            sign_of(payload_of(sub, iat, exp), secret),
            payload_of(sub, iat, exp),
            secret,
        ),
    ensures
        claims_of_token(token_of(sub, iat, exp, secret), secret) == Some(
            Claims { sub, exp, iat },
        ),
{
    lemma_dec_chars_wf(sub as nat);
    lemma_dec_chars_wf(iat as nat);
    lemma_dec_chars_wf(exp as nat);
    let a = dec_chars(sub as nat);
    let b = dec_chars(iat as nat);
    let c = dec_chars(exp as nat);
    let payload = payload_of(sub, iat, exp);
    let sig = sign_of(payload, secret);
    let t = token_of(sub, iat, exp, secret);
    let d1 = a.len() as int;
    let d2 = d1 + 1 + b.len();
    let d3 = d2 + 1 + c.len();
    assert(t.len() == d3 + 1 + sig.len());
    assert(forall|i: int| 0 <= i < a.len() ==> t[i] == a[i]);
    assert(t[d1] == '.');
    assert(forall|i: int| 0 <= i < b.len() ==> t[d1 + 1 + i] == b[i]);
    assert(t[d2] == '.');
    assert(forall|i: int| 0 <= i < c.len() ==> t[d2 + 1 + i] == c[i]);
    assert(t[d3] == '.');
    lemma_digits_not_dot(a);
    lemma_digits_not_dot(b);
    lemma_digits_not_dot(c);
    lemma_find_dot_at(t, 0, d1);
    assert(forall|j: int| d1 + 1 <= j < d2 ==> t[j] != '.') by {
        assert(forall|j: int| d1 + 1 <= j < d2 ==> t[j] == b[j - (d1 + 1)]);
    }
    lemma_find_dot_at(t, d1 + 1, d2);
    assert(forall|j: int| d2 + 1 <= j < d3 ==> t[j] != '.') by {
        assert(forall|j: int| d2 + 1 <= j < d3 ==> t[j] == c[j - (d2 + 1)]);
    }
    lemma_find_dot_at(t, d2 + 1, d3);
    assert(t.subrange(0, d1) =~= a);
    assert(t.subrange(d1 + 1, d2) =~= b);
    assert(t.subrange(d2 + 1, d3) =~= c);
    assert(t.subrange(0, d3) =~= payload);
    assert(t.subrange(d3 + 1, t.len() as int) =~= sig);
}

/// The error every failed verification returns.
fn invalid_token_error() -> (e: AppError)
    ensures
        e.is_invalid_token(),
{
    AppError::AuthError(String::from_str("Invalid token"))
}

/// The position of the first dot of `s` at or after `from`, if any.
fn find_dot_from(s: &str, from: usize) -> (r: Option<usize>)
    requires
        from <= s@.len(),
    ensures
        match r {
            Some(d) => from <= d < s@.len() && find_dot(s@, from as int) == Some(d as int),
            None => find_dot(s@, from as int) is None,
        },
{
    let n = s.unicode_len();
    let mut i: usize = from;
    while i < n
        invariant
            from <= i <= n == s@.len(),
            find_dot(s@, from as int) == find_dot(s@, i as int),
        decreases n - i,
    {
        if s.get_char(i) == '.' {
            return Some(i);
        }
        i = i + 1;
    }
    None
}

/// Issue a session token for `user_id` as of time `now`: issuance always
/// succeeds, for every subject and every secret, and the claims are the
/// subject, the issue time and the expiry one session lifetime later. The
/// issued token is accepted back as carrying exactly those claims.
pub fn create_token_at(user_id: u128, secret: &str, now: u64) -> (t: String)
    requires
        now <= u64::MAX - SESSION_LIFETIME_SECS,
    ensures
        t@ == token_of(user_id, now, (now + SESSION_LIFETIME_SECS) as u64, secret@),
        claims_of_token(t@, secret@) == Some(
            Claims { sub: user_id, exp: (now + SESSION_LIFETIME_SECS) as u64, iat: now },
        ),
{
    let exp: u64 = now + SESSION_LIFETIME_SECS;
    let mut payload: Vec<char> = Vec::new();
    push_decimal(&mut payload, user_id);
    payload.push('.');
    push_decimal(&mut payload, now as u128);
    payload.push('.');
    push_decimal(&mut payload, exp as u128);
    proof {
        assert(payload@ =~= payload_of(user_id, now, exp));
    }
    let payload_str = chars_to_string(&payload);
    let sig = hmac_sign(payload_str.as_str(), secret);
    let mut token = payload_str;
    token.append(".");
    token.append(sig.as_str());
    proof {
        reveal_strlit(".");
        assert(token@ =~= token_of(user_id, now, exp, secret@));
        lemma_canonical_token_parses(user_id, now, exp, secret@);
    }
    token
}

/// Issue a session token for `user_id` valid from now for one session
/// lifetime. Issuance is owed for every subject and every secret; the one
/// failure left is a clock so far in the future that the expiry cannot be
/// represented, a fatal condition of the machine and not of the call.
pub fn create_token(user_id: u128, secret: &str) -> (r: Result<String, AppError>)
    ensures
        match r {
            Ok(t) => exists|iat: u64, exp: u64|
                {
                    &&& exp == iat + SESSION_LIFETIME_SECS
                    &&& t@ == #[trigger] token_of(user_id, iat, exp, secret@)
                    &&& claims_of_token(t@, secret@) == Some(Claims { sub: user_id, exp, iat })
                },
            Err(e) => e.is_internal(),
        },
{
    let now = now_ts();
    if now > u64::MAX - SESSION_LIFETIME_SECS {
        return Err(AppError::InternalServerError(String::from_str("Token creation failed")));
    }
    let t = create_token_at(user_id, secret, now);
    proof {
        assert(t@ == token_of(user_id, now, (now + SESSION_LIFETIME_SECS) as u64, secret@));
    }
    Ok(t)
}

/// Verify a token against `secret` at time `now`: returns exactly the
/// claims the token is accepted as carrying when they have not expired, and
/// the invalid-token error in every other case.
pub fn verify_token_at(token: &str, secret: &str, now: u64) -> (r: Result<Claims, AppError>)
    ensures
        match verify_outcome(token@, secret@, now) {
            Some(c) => r matches Ok(rc) && rc == c,
            None => r matches Err(e) && e.is_invalid_token(),
        },
{
    let n = token.unicode_len();
    let d1 = match find_dot_from(token, 0) {
        Some(d) => d,
        None => {
            return Err(invalid_token_error());
        },
    };
    let d2 = match find_dot_from(token, d1 + 1) {
        Some(d) => d,
        None => {
            return Err(invalid_token_error());
        },
    };
    let d3 = match find_dot_from(token, d2 + 1) {
        Some(d) => d,
        None => {
            return Err(invalid_token_error());
        },
    };
    let sub = match parse_decimal(token, 0, d1) {
        Some(v) => v,
        None => {
            return Err(invalid_token_error());
        },
    };
    let iat_wide = match parse_decimal(token, d1 + 1, d2) {
        Some(v) => v,
        None => {
            return Err(invalid_token_error());
        },
    };
    let exp_wide = match parse_decimal(token, d2 + 1, d3) {
        Some(v) => v,
        None => {
            return Err(invalid_token_error());
        },
    };
    if iat_wide > u64::MAX as u128 || exp_wide > u64::MAX as u128 {
        return Err(invalid_token_error());
    }
    let iat = iat_wide as u64;
    let exp = exp_wide as u64;
    let msg = token.substring_char(0, d3);
    let sig = token.substring_char(d3 + 1, n);
    if hmac_verify(sig, msg, secret) {
        if exp >= now {
            Ok(Claims { sub, exp, iat })
        } else {
            Err(invalid_token_error())
        }
    } else {
        Err(invalid_token_error())
    }
}

/// Verify a token against `secret` at the current time. Success yields
/// exactly the claims the token carries; a token that carries none is
/// always rejected; every failure is the invalid-token error.
pub fn verify_token(token: &str, secret: &str) -> (r: Result<Claims, AppError>)
    ensures
        r matches Ok(c) ==> claims_of_token(token@, secret@) == Some(c),
        claims_of_token(token@, secret@) is None ==> (r matches Err(e) && e.is_invalid_token()),
        r matches Err(e) ==> e.is_invalid_token(),
{
    let now = now_ts();
    verify_token_at(token, secret, now)
}

/// Round trip: a token issued for a subject is verified back to exactly that
/// subject, at any time before its expiry, under any secret whose verifier
/// accepts the issuing signature, which the issuing secret's own does.
pub proof fn lemma_issue_then_verify(sub: u128, iat: u64, exp: u64, secret: Seq<char>, now: u64)
    requires
        hmac_ok(sign_of(payload_of(sub, iat, exp), secret), payload_of(sub, iat, exp), secret),
        now <= exp,
    ensures
        verify_outcome(token_of(sub, iat, exp, secret), secret, now) == Some(
            Claims { sub, exp, iat },
        ),
{
    lemma_canonical_token_parses(sub, iat, exp, secret);
}

/// A token whose embedded expiry is in the past fails verification, whatever
/// its signature: even claims that decode under a matching signature are
/// rejected once expired, and a token carrying no claims is rejected anyway.
pub proof fn lemma_expired_token_fails(token: Seq<char>, secret: Seq<char>, now: u64)
    requires
        match claims_of_token(token, secret) {
            Some(c) => c.exp < now,
            None => true,
        },
    ensures
        verify_outcome(token, secret, now) is None,
{
}

/// A token issued under one secret is rejected under another whenever the
/// other secret's verifier does not accept the issuing signature. That the
/// two verifiers never agree on a signature is a property of the HMAC
/// construction itself and is not provable here.
pub proof fn lemma_foreign_secret_rejected(
    sub: u128,
    iat: u64,
    exp: u64,
    issuing: Seq<char>,
    other: Seq<char>,
)
    requires
        !hmac_ok(sign_of(payload_of(sub, iat, exp), issuing), payload_of(sub, iat, exp), other),
    ensures
        claims_of_token(token_of(sub, iat, exp, issuing), other) is None,
{
    lemma_dec_chars_wf(sub as nat);
    lemma_dec_chars_wf(iat as nat);
    lemma_dec_chars_wf(exp as nat);
    let payload = payload_of(sub, iat, exp);
    let sig = sign_of(payload, issuing);
    let t = token_of(sub, iat, exp, issuing);
    let a = dec_chars(sub as nat);
    let b = dec_chars(iat as nat);
    let c = dec_chars(exp as nat);
    let d1 = a.len() as int;
    let d2 = d1 + 1 + b.len();
    let d3 = d2 + 1 + c.len();
    lemma_digits_not_dot(a);
    lemma_digits_not_dot(b);
    lemma_digits_not_dot(c);
    assert(forall|i: int| 0 <= i < a.len() ==> t[i] == a[i]);
    assert(forall|i: int| 0 <= i < b.len() ==> t[d1 + 1 + i] == b[i]);
    assert(forall|i: int| 0 <= i < c.len() ==> t[d2 + 1 + i] == c[i]);
    lemma_find_dot_at(t, 0, d1);
    assert(forall|j: int| d1 + 1 <= j < d2 ==> t[j] != '.') by {
        assert(forall|j: int| d1 + 1 <= j < d2 ==> t[j] == b[j - (d1 + 1)]);
    }
    lemma_find_dot_at(t, d1 + 1, d2);
    assert(forall|j: int| d2 + 1 <= j < d3 ==> t[j] != '.') by {
        assert(forall|j: int| d2 + 1 <= j < d3 ==> t[j] == c[j - (d2 + 1)]);
    }
    lemma_find_dot_at(t, d2 + 1, d3);
    assert(t.subrange(0, d3) =~= payload);
    assert(t.subrange(d3 + 1, t.len() as int) =~= sig);
}

} // verus!
