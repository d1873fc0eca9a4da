//! Registration and login: the authentication flow composes the credential
//! codec with the users sub-contract. Registration hashes first and then
//! performs a single atomic create, so an aborted request never leaves a
//! partially written principal; login never reveals whether a username
//! exists.

use vstd::prelude::*;
use vstd::string::StringExecFns;
use crate::auth::{Auth, bcrypt_verify_of, jwt_payload_of};
use crate::clock::now_rfc3339;
use crate::error::AppError;
use crate::models::{User, UserView, registered_user_view};
use crate::repo::UsersRepo;
use crate::schema;
use crate::schema::{Created, LoginRequest, LoginResponse, RegisterRequest};
use crate::validation::lower_of;
use crate::validation::naming::{username_error, valid_username, validate_username};

verus! {

/// The condition under which login is accepted against the stored users:
/// the normalized username is present, the principal is active, and the
/// password verifies against the stored hash.
pub open spec fn login_accepts(
    m: Map<Seq<char>, UserView>,
    username: Seq<char>,
    password: Seq<char>,
) -> bool {
    let norm = lower_of(username);
    &&& m.contains_key(norm)
    &&& !m[norm].deactivated
    &&& bcrypt_verify_of(password, m[norm].password_hash) == Some(true)
}

/// The outcome registration owes, relating the stored users before (`m0`)
/// and after (`m1`), the toggle, the raw credentials, and the result:
/// a failed call mutates nothing; a disabled toggle is an authentication
/// error regardless of input; when enabled, success stores exactly one new
/// principal under the normalized free name, a broken naming rule is the
/// validation error naming that rule, and a conflict or hashing fault can
/// arise only on a valid name — in particular a name already stored is
/// always refused.
pub open spec fn register_outcome(
    m0: Map<Seq<char>, UserView>,
    m1: Map<Seq<char>, UserView>,
    registration_enabled: bool,
    username: Seq<char>,
    password: Seq<char>,
    r: Result<Created, AppError>,
) -> bool {
    let norm = lower_of(username);
    &&& (r is Err ==> m1 == m0)
    &&& (!registration_enabled ==> (r matches Err(e) && e is Authentication))
    &&& (registration_enabled ==> match r {
        Ok(_) => valid_username(norm) && !m0.contains_key(norm) && (exists|
            h: Seq<char>,
            ts: Seq<char>,
        |
            #![auto]
            bcrypt_verify_of(password, h) == Some(true) && m1 == m0.insert(
                norm,
                registered_user_view(norm, h, ts),
            )),
        Err(e) => match e {
            AppError::Validation(msg) => username_error(norm) == Some(msg@),
            AppError::BcryptError(_) => valid_username(norm),
            AppError::Conflict(_) => valid_username(norm),
            _ => false,
        },
    })
    &&& (registration_enabled && valid_username(norm) && m0.contains_key(norm) ==> (
    r matches Err(e) && (e is Conflict || e is BcryptError)))
}

/// Registers a new principal: checks the runtime toggle, validates and
/// normalizes the username, hashes the password, and performs one atomic
/// create. Success is a created status; a failed call leaves the stored
/// users exactly as they were.
pub fn register<U: UsersRepo>(
    users: &mut U,
    auth: &Auth,
    registration_enabled: bool,
    req: &RegisterRequest,
) -> (r: Result<Created, AppError>)
    requires
        old(users).inv(),
    ensures
        final(users).inv(),
        register_outcome(
            old(users).users_view(),
            final(users).users_view(),
            registration_enabled,
            req.user@,
            req.password@,
            r,
        ),
{
    let user = match prepare_registration(auth, registration_enabled, req) {
        Ok(u) => u,
        Err(e) => {
            return Err(e);
        },
    };

    match users.create_user(user) {
        Ok(()) => Ok(Created),
        Err(e) => Err(e),
    }
}

/// The whole registration decision short of the store itself: checks the
/// runtime toggle, validates and normalizes the username, hashes the
/// password, and builds the principal to persist. The caller performs the
/// single atomic create — `register` does so on a users sub-contract; a
/// backend reached over a transport hands the record to its store.
pub fn prepare_registration(auth: &Auth, registration_enabled: bool, req: &RegisterRequest) -> (r:
    Result<User, AppError>)
    ensures
        ({
            let norm = lower_of(req.user@);
            &&& (!registration_enabled ==> (r matches Err(e) && e is Authentication))
            &&& (registration_enabled ==> match r {
                Ok(u) => valid_username(norm) && (exists|h: Seq<char>, ts: Seq<char>|
                    #![auto]
                    bcrypt_verify_of(req.password@, h) == Some(true) && u@
                        == registered_user_view(norm, h, ts)),
                Err(e) => match e {
                    AppError::Validation(msg) => username_error(norm) == Some(msg@),
                    AppError::BcryptError(_) => valid_username(norm),
                    _ => false,
                },
            })
        }),
{
    if !registration_enabled {
        return Err(AppError::authentication("Only admin can create new users"));
    }

    let username = match validate_username(req.user.as_str()) {
        Ok(u) => u,
        Err(estr) => {
            return Err(AppError::Validation(estr));
        },
    };

    let hashed_password = match auth.hash_password(req.password.as_str()) {
        Ok(h) => h,
        Err(e) => {
            return Err(e);
        },
    };

    Ok(User::from_schema(schema::User { username, password_hash: hashed_password }, now_rfc3339()))
}

/// The outcome login owes against stored users `m` under signing secret
/// `secret`: accepted credentials succeed and yield a token for the stored
/// principal; every rejection cause is pinned to exactly its inputs, and
/// absence, deactivation and a wrong password share one uninformative
/// authorization kind.
pub open spec fn login_outcome(
    m: Map<Seq<char>, UserView>,
    secret: Seq<u8>,
    username: Seq<char>,
    password: Seq<char>,
    r: Result<LoginResponse, AppError>,
) -> bool {
    let norm = lower_of(username);
    &&& (login_accepts(m, username, password) ==> r is Ok)
    &&& (match r {
        Ok(resp) => login_accepts(m, username, password) && (exists|exp: u64|
            jwt_payload_of(secret, resp.token@) == Some((m[norm].username, exp))),
        Err(e) => match e {
            AppError::Authorization(msg) => msg@ == "Unauthorized"@ && (!m.contains_key(norm)
                || m[norm].deactivated || bcrypt_verify_of(password, m[norm].password_hash)
                == Some(false)),
            AppError::BcryptError(_) => m.contains_key(norm) && !m[norm].deactivated
                && bcrypt_verify_of(password, m[norm].password_hash) is None,
            _ => false,
        },
    })
}

/// Completes login for a principal already fetched from storage: the
/// principal must be active and the password must verify against its stored
/// hash; then a token is issued for its stored username. This is the whole
/// decision that follows a lookup — `login` applies it after the users
/// sub-contract's lookup; a backend reached over a transport hands it the
/// fetched record.
pub fn login_with_user(auth: &Auth, user: &User, password: &str) -> (r: Result<
    LoginResponse,
    AppError,
>)
    ensures
        (!user@.deactivated && bcrypt_verify_of(password@, user@.password_hash) == Some(true))
            ==> r is Ok,
        match r {
            Ok(resp) => !user@.deactivated && bcrypt_verify_of(password@, user@.password_hash)
                == Some(true) && (exists|exp: u64|
                jwt_payload_of(auth.spec_secret(), resp.token@) == Some((user@.username, exp))),
            Err(e) => match e {
                AppError::Authorization(msg) => msg@ == "Unauthorized"@ && (user@.deactivated
                    || bcrypt_verify_of(password@, user@.password_hash) == Some(false)),
                AppError::BcryptError(_) => !user@.deactivated && bcrypt_verify_of(
                    password@,
                    user@.password_hash,
                ) is None,
                _ => false,
            },
        },
{
    if user.deactivated {
        return Err(AppError::authorization("Unauthorized"));
    }

    match auth.verify_password(password, user.password_hash.as_str()) {
        Ok(true) => {},
        Ok(false) => {
            return Err(AppError::authorization("Unauthorized"));
        },
        Err(e) => {
            return Err(e);
        },
    }

    match auth.create_token(user.username.as_str()) {
        Ok(token) => {
            proof {
                assert(jwt_payload_of(auth.spec_secret(), token.0@) == Some(
                    (user@.username, token.1),
                ));
            }
            Ok(LoginResponse { token: token.0 })
        },
        Err(e) => Err(e),
    }
}

/// Logs a principal in: looks up the normalized username, requires the
/// principal to be active, verifies the password, and issues a token for
/// the stored username. Absence, deactivation and a wrong password are all
/// the same uninformative authorization failure.
pub fn login<U: UsersRepo>(users: &U, auth: &Auth, req: &LoginRequest) -> (r: Result<
    LoginResponse,
    AppError,
>)
    requires
        users.inv(),
    ensures
        login_outcome(users.users_view(), auth.spec_secret(), req.user@, req.password@, r),
{
    let normalized = crate::validation::force_lowercase(req.user.as_str());

    let user = match users.get_user(normalized.as_str()) {
        Ok(u) => u,
        Err(_) => {
            return Err(AppError::authorization("Unauthorized"));
        },
    };

    proof {
        assert(user@ == users.users_view()[lower_of(req.user@)]);
    }
    login_with_user(auth, &user, req.password.as_str())
}

/// After a successful registration, login with the same credentials
/// succeeds, and the returned token's subject is the normalized username.
/// The hypotheses are exactly what `register` ensures of a successful call
/// and what `login` ensures of any call against the resulting state.
pub proof fn lemma_register_then_login(
    m0: Map<Seq<char>, UserView>,
    m1: Map<Seq<char>, UserView>,
    secret: Seq<u8>,
    username: Seq<char>,
    password: Seq<char>,
    h: Seq<char>,
    ts: Seq<char>,
    r: Result<LoginResponse, AppError>,
)
    requires
        bcrypt_verify_of(password, h) == Some(true),
        m1 == m0.insert(lower_of(username), registered_user_view(lower_of(username), h, ts)),
        login_outcome(m1, secret, username, password, r),
    ensures
        login_accepts(m1, username, password),
        r is Ok,
        r matches Ok(resp) ==> exists|exp: u64|
            jwt_payload_of(secret, resp.token@) == Some((lower_of(username), exp)),
{
    assert(m1[lower_of(username)] == registered_user_view(lower_of(username), h, ts));
}

/// Registering the same username twice cannot succeed twice: once a
/// successful registration has stored the normalized name, a further
/// register call honoring the contract is refused — a conflict, or a
/// hashing fault — and leaves the stored users unchanged. No partial state
/// mutation occurs on the failure.
pub proof fn lemma_register_twice_conflicts(
    m0: Map<Seq<char>, UserView>,
    m1: Map<Seq<char>, UserView>,
    m2: Map<Seq<char>, UserView>,
    username: Seq<char>,
    password2: Seq<char>,
    h: Seq<char>,
    ts: Seq<char>,
    r2: Result<Created, AppError>,
)
    requires
        valid_username(lower_of(username)),
        m1 == m0.insert(lower_of(username), registered_user_view(lower_of(username), h, ts)),
        register_outcome(m1, m2, true, username, password2, r2),
    ensures
        r2 matches Err(e) && (e is Conflict || e is BcryptError),
        m2 == m1,
{
    assert(m1.contains_key(lower_of(username)));
}

} // verus!
