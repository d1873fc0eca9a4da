//! Request authorization: credential extraction from bearer headers and
//! cookies, token validation against an explicit instant, the liveness
//! re-check against the users sub-contract, and the static-key variants for
//! service-to-service calls. Every rejection is the same uninformative
//! authorization failure, so a caller cannot probe which step failed.

use vstd::prelude::*;
use vstd::string::{StrSliceExecFns, StringExecFns};
use crate::auth::{Auth, jwt_payload_of};
use crate::error::AppError;
use crate::models::UserView;
use crate::repo::UsersRepo;
use crate::strutil::{contains_str, has_prefix, str_equal, strip_prefix_of};

verus! {

/// Whitespace trimmed around a cookie segment.
pub open spec fn is_cookie_space(c: char) -> bool {
    c == ' ' || c == '\t'
}

pub open spec fn trim_front(s: Seq<char>) -> Seq<char>
    decreases s.len(),
{
    if s.len() > 0 && is_cookie_space(s[0]) {
        trim_front(s.drop_first())
    } else {
        s
    }
}

pub open spec fn trim_back(s: Seq<char>) -> Seq<char>
    decreases s.len(),
{
    if s.len() > 0 && is_cookie_space(s.last()) {
        trim_back(s.drop_last())
    } else {
        s
    }
}

/// The segment without leading and trailing cookie whitespace.
pub open spec fn trim_spec(s: Seq<char>) -> Seq<char> {
    trim_back(trim_front(s))
}

proof fn lemma_trim_front_skip(s: Seq<char>, a: int)
    requires
        0 <= a <= s.len(),
        forall|j: int| 0 <= j < a ==> is_cookie_space(#[trigger] s[j]),
        a == s.len() || !is_cookie_space(s[a]),
    ensures
        trim_front(s) == s.skip(a),
    decreases a,
{
    if a == 0 {
        assert(s.skip(0) =~= s);
    } else {
        assert(is_cookie_space(s[0]));
        lemma_trim_front_skip(s.drop_first(), a - 1);
        assert(s.drop_first().skip(a - 1) =~= s.skip(a));
    }
}

proof fn lemma_trim_back_take(s: Seq<char>, b: int)
    requires
        0 <= b <= s.len(),
        forall|j: int| b <= j < s.len() ==> is_cookie_space(#[trigger] s[j]),
        b == 0 || !is_cookie_space(s[b - 1]),
    ensures
        trim_back(s) == s.take(b),
    decreases s.len() - b,
{
    if b == s.len() {
        assert(s.take(b) =~= s);
    } else {
        assert(is_cookie_space(s.last()));
        lemma_trim_back_take(s.drop_last(), b);
        assert(s.drop_last().take(b) =~= s.take(b));
    }
}

fn char_space_at(s: &str, i: usize) -> (r: bool)
    requires
        i < s@.len(),
    ensures
        r == is_cookie_space(s@[i as int]),
{
    let c = s.get_char(i);
    c == ' ' || c == '\t'
}

/// Trims cookie whitespace from both ends.
fn trim_cookie<'a>(s: &'a str) -> (r: &'a str)
    ensures
        r@ == trim_spec(s@),
{
    let n = s.unicode_len();
    let mut a: usize = 0;
    while a < n && char_space_at(s, a)
        invariant
            n == s@.len(),
            0 <= a <= n,
            forall|j: int| 0 <= j < a ==> is_cookie_space(#[trigger] s@[j]),
        decreases n - a,
    {
        a = a + 1;
    }
    proof {
        lemma_trim_front_skip(s@, a as int);
    }
    if a == n {
        proof {
            assert(s@.skip(a as int) =~= Seq::<char>::empty());
            assert(trim_back(Seq::<char>::empty()) == Seq::<char>::empty());
            reveal_strlit("");
            assert(""@ =~= Seq::<char>::empty());
        }
        return "";
    }
    let mut b: usize = n;
    while b > a && char_space_at(s, b - 1)
        invariant
            n == s@.len(),
            a < n,
            !is_cookie_space(s@[a as int]),
            0 <= a < b <= n,
            forall|j: int| b <= j < n ==> is_cookie_space(#[trigger] s@[j]),
        decreases b,
    {
        b = b - 1;
    }
    proof {
        assert(!is_cookie_space(s@[b - 1]));
        let t = s@.skip(a as int);
        assert(forall|j: int| 0 <= j < t.len() ==> t[j] == s@[j + a]);
        lemma_trim_back_take(t, b - a);
        assert(trim_back(t) == t.take(b - a));
        assert(t.take(b - a) =~= s@.subrange(a as int, b as int));
    }
    s.substring_char(a, b)
}

/// The token a single (untrimmed) cookie segment carries under the name
/// `token` or `jwt`, if either.
pub open spec fn segment_token_of(seg: Seq<char>) -> Option<Seq<char>> {
    let t = trim_spec(seg);
    if has_prefix(t, "token="@) {
        Some(t.skip("token="@.len() as int))
    } else if has_prefix(t, "jwt="@) {
        Some(t.skip("jwt="@.len() as int))
    } else {
        None
    }
}

fn segment_token(seg: &str) -> (r: Option<String>)
    ensures
        match r {
            Some(t) => segment_token_of(seg@) == Some(t@),
            None => segment_token_of(seg@) is None,
        },
{
    let trimmed = trim_cookie(seg);
    match strip_prefix_of(trimmed, "token=") {
        Some(v) => Some(v.to_owned()),
        None => match strip_prefix_of(trimmed, "jwt=") {
            Some(v) => Some(v.to_owned()),
            None => None,
        },
    }
}

/// Index of the first semicolon, or -1 if none.
pub open spec fn find_semicolon(s: Seq<char>) -> int
    decreases s.len(),
{
    if s.len() == 0 {
        -1
    } else if s[0] == ';' {
        0
    } else {
        let rest = find_semicolon(s.drop_first());
        if rest == -1 {
            -1
        } else {
            rest + 1
        }
    }
}

proof fn lemma_find_semicolon_range(s: Seq<char>)
    ensures
        -1 <= find_semicolon(s) < s.len(),
        find_semicolon(s) >= 0 ==> s[find_semicolon(s)] == ';',
    decreases s.len(),
{
    if s.len() > 0 && s[0] != ';' {
        lemma_find_semicolon_range(s.drop_first());
        let rest = find_semicolon(s.drop_first());
        if rest >= 0 {
            assert(s.drop_first()[rest] == s[rest + 1]);
        }
    }
}

proof fn lemma_find_semicolon_at(s: Seq<char>, i: int)
    requires
        0 <= i < s.len(),
        s[i] == ';',
        forall|j: int| 0 <= j < i ==> s[j] != ';',
    ensures
        find_semicolon(s) == i,
    decreases i,
{
    if i > 0 {
        assert(s[0] != ';');
        assert(s.drop_first()[i - 1] == s[i]);
        assert(forall|j: int| 0 <= j < i - 1 ==> #[trigger] s.drop_first()[j] == s[j + 1]);
        lemma_find_semicolon_at(s.drop_first(), i - 1);
    }
}

proof fn lemma_find_semicolon_none(s: Seq<char>)
    requires
        forall|j: int| 0 <= j < s.len() ==> s[j] != ';',
    ensures
        find_semicolon(s) == -1,
    decreases s.len(),
{
    if s.len() > 0 {
        assert(forall|j: int|
            0 <= j < s.len() - 1 ==> #[trigger] s.drop_first()[j] == s[j + 1]);
        lemma_find_semicolon_none(s.drop_first());
    }
}

/// The first token any semicolon-separated segment of the cookie header
/// carries, scanning left to right.
pub open spec fn cookie_token_of(c: Seq<char>) -> Option<Seq<char>>
    decreases c.len(), via cookie_token_of_decreases
{
    let i = find_semicolon(c);
    if i == -1 {
        segment_token_of(c)
    } else {
        match segment_token_of(c.take(i)) {
            Some(t) => Some(t),
            None => cookie_token_of(c.skip(i + 1)),
        }
    }
}

#[via_fn]
proof fn cookie_token_of_decreases(c: Seq<char>) {
    lemma_find_semicolon_range(c);
}

/// Paths that bypass authorization entirely.
pub open spec fn is_exempt_path(p: Seq<char>) -> bool {
    p == "/register"@ || p == "/login"@
}

/// The bearer token of an Authorization header, if well-formed.
pub open spec fn header_token_of(h: Option<Seq<char>>) -> Option<Seq<char>> {
    match h {
        Some(v) => if has_prefix(v, "Bearer "@) {
            Some(v.skip("Bearer "@.len() as int))
        } else {
            None
        },
        None => None,
    }
}

/// The credential a request presents: the bearer header wins over a cookie.
pub open spec fn request_token_of(
    auth_header: Option<Seq<char>>,
    cookie_header: Option<Seq<char>>,
) -> Option<Seq<char>> {
    match header_token_of(auth_header) {
        Some(t) => Some(t),
        None => match cookie_header {
            Some(c) => cookie_token_of(c),
            None => None,
        },
    }
}

/// What a request is resolved to when it passes authorization.
pub enum AuthDecision {
    /// The path bypasses authorization.
    Exempt,
    /// The verified subject identity, for downstream consumption.
    Authorized(String),
}

/// A subject is live when it is stored and not deactivated.
pub open spec fn subject_live(m: Map<Seq<char>, UserView>, sub: Seq<char>) -> bool {
    m.contains_key(sub) && !m[sub].deactivated
}

/// Whether the principal may still authenticate: it must exist and not be
/// deactivated.
pub fn validate_user<U: UsersRepo>(users: &U, username: &str) -> (r: bool)
    requires
        users.inv(),
    ensures
        r == subject_live(users.users_view(), username@),
{
    match users.get_user(username) {
        Ok(u) => !u.deactivated,
        Err(_) => false,
    }
}

/// Every rejection is one and the same: the authorization kind with the one
/// constant text, so two requests failing for different reasons are
/// indistinguishable to the caller.
pub open spec fn uniform_rejection<T>(r: Result<T, AppError>) -> bool {
    r matches Err(e) && e matches AppError::Authorization(m) && m@ == "Unauthorized"@
}

/// The outcome the bearer-token middleware owes for a request, as a relation
/// between the stored users, the signing secret, the request parts, the
/// instant of the check, and the result.
pub open spec fn jwt_authorize_outcome(
    m: Map<Seq<char>, UserView>,
    secret: Seq<u8>,
    path: Seq<char>,
    auth_header: Option<Seq<char>>,
    cookie_header: Option<Seq<char>>,
    now: u64,
    r: Result<AuthDecision, AppError>,
) -> bool {
    if is_exempt_path(path) {
        r matches Ok(d) && d is Exempt
    } else {
        match request_token_of(auth_header, cookie_header) {
            None => uniform_rejection(r),
            Some(t) => match jwt_payload_of(secret, t) {
                None => uniform_rejection(r),
                Some(p) => {
                    if now >= p.1 {
                        uniform_rejection(r)
                    } else if !subject_live(m, p.0) {
                        uniform_rejection(r)
                    } else {
                        r matches Ok(d) && d matches AuthDecision::Authorized(sub) && sub@ == p.0
                    }
                },
            },
        }
    }
}

/// Authorizes one request at the instant `now`: exempt paths pass through;
/// otherwise a bearer credential is extracted from the Authorization header
/// or a `token`/`jwt` cookie, validated cryptographically and against its
/// expiry, and its subject is re-checked for liveness in storage. Any
/// failure is the same uninformative authorization error.
pub fn jwt_authorize_at<U: UsersRepo>(
    users: &U,
    auth: &Auth,
    path: &str,
    auth_header: Option<&str>,
    cookie_header: Option<&str>,
    now: u64,
) -> (r: Result<AuthDecision, AppError>)
    requires
        users.inv(),
    ensures
        jwt_authorize_outcome(
            users.users_view(),
            auth.spec_secret(),
            path@,
            match auth_header {
                Some(h) => Some(h@),
                None => None,
            },
            match cookie_header {
                Some(c) => Some(c@),
                None => None,
            },
            now,
            r,
        ),
{
    if str_equal(path, "/register") || str_equal(path, "/login") {
        return Ok(AuthDecision::Exempt);
    }

    let token_from_header: Option<String> = match auth_header {
        Some(h) => match strip_prefix_of(h, "Bearer ") {
            Some(t) => Some(t.to_owned()),
            None => None,
        },
        None => None,
    };

    let token: String = match token_from_header {
        Some(t) => t,
        None => {
            let from_cookie: Option<String> = match cookie_header {
                Some(c) => parse_cookie_token(c),
                None => None,
            };
            match from_cookie {
                Some(t) => t,
                None => {
                    return Err(AppError::authorization("Unauthorized"));
                },
            }
        },
    };

    match auth.decode_token_at(token.as_str(), now) {
        Ok(claims) => {
            if validate_user(users, claims.sub.as_str()) {
                Ok(AuthDecision::Authorized(claims.sub))
            } else {
                Err(AppError::authorization("Unauthorized"))
            }
        },
        Err(_) => Err(AppError::authorization("Unauthorized")),
    }
}

/// A deactivated principal is rejected even while its token is still
/// cryptographically valid and unexpired: the middleware's liveness
/// re-check, not just the signature check, decides. The rejection is the
/// same uniform one as every other.
pub proof fn lemma_deactivated_subject_rejected(
    m: Map<Seq<char>, UserView>,
    secret: Seq<u8>,
    path: Seq<char>,
    auth_header: Option<Seq<char>>,
    cookie_header: Option<Seq<char>>,
    now: u64,
    t: Seq<char>,
    sub: Seq<char>,
    exp: u64,
    r: Result<AuthDecision, AppError>,
)
    requires
        jwt_authorize_outcome(m, secret, path, auth_header, cookie_header, now, r),
        !is_exempt_path(path),
        request_token_of(auth_header, cookie_header) == Some(t),
        jwt_payload_of(secret, t) == Some((sub, exp)),
        now < exp,
        m.contains_key(sub),
        m[sub].deactivated,
    ensures
        uniform_rejection(r),
{
}

/// Management access: exempt paths pass through; otherwise the bearer token
/// must equal the configured management token exactly.
pub fn management_authorize(management_token: &str, path: &str, auth_header: Option<&str>) -> (r:
    Result<(), AppError>)
    ensures
        ({
            let h = match auth_header {
                Some(h) => Some(h@),
                None => None,
            };
            if is_exempt_path(path@) {
                r is Ok
            } else {
                match header_token_of(h) {
                    Some(t) => if t == management_token@ {
                        r is Ok
                    } else {
                        uniform_rejection(r)
                    },
                    None => uniform_rejection(r),
                }
            }
        }),
{
    if str_equal(path, "/register") || str_equal(path, "/login") {
        return Ok(());
    }
    match auth_header {
        Some(h) => match strip_prefix_of(h, "Bearer ") {
            Some(t) => {
                if str_equal(t, management_token) {
                    Ok(())
                } else {
                    Err(AppError::authorization("Unauthorized"))
                }
            },
            None => Err(AppError::authorization("Unauthorized")),
        },
        None => Err(AppError::authorization("Unauthorized")),
    }
}

/// The static key a request presents: the X-Api-Key header wins over the
/// Authorization header, and a bearer prefix is tolerated either way.
pub open spec fn presented_key_of(
    x_api_key: Option<Seq<char>>,
    auth_header: Option<Seq<char>>,
) -> Option<Seq<char>> {
    let raw = match x_api_key {
        Some(k) => Some(k),
        None => auth_header,
    };
    match raw {
        Some(k) => if has_prefix(k, "Bearer "@) {
            Some(k.skip("Bearer "@.len() as int))
        } else {
            Some(k)
        },
        None => None,
    }
}

/// Service-to-service access: the presented key must be on the configured
/// allow-list.
pub fn api_key_authorize(
    client_api_keys: &Vec<String>,
    x_api_key: Option<&str>,
    auth_header: Option<&str>,
) -> (r: Result<(), AppError>)
    ensures
        ({
            let key = presented_key_of(
                match x_api_key {
                    Some(k) => Some(k@),
                    None => None,
                },
                match auth_header {
                    Some(h) => Some(h@),
                    None => None,
                },
            );
            match key {
                Some(k) => if client_api_keys.deep_view().contains(k) {
                    r is Ok
                } else {
                    (r matches Err(e) && e is Authorization)
                },
                None => r matches Err(e) && e is Authorization,
            }
        }),
{
    let raw: Option<&str> = match x_api_key {
        Some(k) => Some(k),
        None => auth_header,
    };
    match raw {
        Some(k) => {
            let key: &str = match strip_prefix_of(k, "Bearer ") {
                Some(rest) => rest,
                None => k,
            };
            if contains_str(client_api_keys, key) {
                Ok(())
            } else {
                Err(AppError::authorization("Unauthorized: Invalid API key"))
            }
        },
        None => Err(AppError::authorization("Missing API key in headers")),
    }
}

fn char_semicolon_at(s: &str, i: usize) -> (r: bool)
    requires
        i < s@.len(),
    ensures
        r == (s@[i as int] == ';'),
{
    s.get_char(i) == ';'
}

/// Finds the token in a cookie header, if any segment carries one.
pub fn parse_cookie_token(c: &str) -> (r: Option<String>)
    ensures
        match r {
            Some(t) => cookie_token_of(c@) == Some(t@),
            None => cookie_token_of(c@) is None,
        },
    decreases c@.len(),
{
    let n = c.unicode_len();
    let mut i: usize = 0;
    while i < n && !char_semicolon_at(c, i)
        invariant
            n == c@.len(),
            0 <= i <= n,
            forall|j: int| 0 <= j < i ==> c@[j] != ';',
        decreases n - i,
    {
        i = i + 1;
    }
    if i == n {
        proof {
            lemma_find_semicolon_none(c@);
        }
        segment_token(c)
    } else {
        proof {
            lemma_find_semicolon_at(c@, i as int);
        }
        let head = c.substring_char(0, i);
        proof {
            assert(head@ =~= c@.take(i as int));
        }
        match segment_token(head) {
            Some(t) => Some(t),
            None => {
                let rest = c.substring_char(i + 1, n);
                proof {
                    assert(rest@ =~= c@.skip(i + 1));
                }
                parse_cookie_token(rest)
            },
        }
    }
}

} // verus!
