//! Accounts: registration, login, and the profile with its partial update.

use crate::models::user::{
    AuthResponse, LoginRequest, NewUser, StoredUser, StoredUserView, UpdateUser, UserProfile,
    UserRole,
};
use crate::providers::{
    bcrypt_error_text, bcrypt_hash, bcrypt_verdict, bcrypt_verify, decode_hs256, fresh_uuid,
    hs256_token,
    is_v4_uuid, sign_hs256, since_unix_epoch, system_now, token_error_text, uuid_hyphenated,
    uuid_text, whole_seconds,
};
use crate::state::AppState;
use crate::text::{blank, eq_ignore_ascii_case, is_blank, str_eq_ignore_ascii_case};
use crate::utils::error::{AppError, ErrorKind};
use crate::utils::validation::{email_ok, password_ok, validate_email, validate_password};
use vstd::prelude::*;
use vstd::string::StringExecFns;

verus! {

broadcast use vstd::std_specs::hash::group_hash_axioms;

/// How long a token is valid, in seconds: one hour.
pub const TOKEN_TTL_SECONDS: usize = 3600;

/// What a token carries: the user's id as text and the second at which the
/// token expires.
#[derive(Debug)]
pub struct Claims {
    pub sub: String,
    pub exp: usize,
}

/// The user that a registration stores: a student without progress.
pub open spec fn new_user(id: u128, payload: NewUser, password_hash: Seq<char>) -> StoredUserView {
    StoredUserView {
        id,
        name: payload.name@,
        email: payload.email@,
        password_hash,
        role: UserRole::Student,
        progress: Seq::empty(),
    }
}

/// A user after the name of a partial update is applied.
pub open spec fn renamed(user: StoredUserView, name: Option<String>) -> StoredUserView {
    StoredUserView {
        name: match name {
            Some(n) => n@,
            None => user.name,
        },
        ..user
    }
}

/// A user with another credential hash.
pub open spec fn rehashed(user: StoredUserView, password_hash: Seq<char>) -> StoredUserView {
    StoredUserView { password_hash, ..user }
}

/// A partial update is refused when it names a name that is blank.
pub open spec fn name_refused(payload: UpdateUser) -> bool {
    payload.name matches Some(name) && blank(name@)
}

/// `user_id` names a user whose email is `email` up to ASCII case.
pub open spec fn has_email(state: &AppState, user_id: u128, email: Seq<char>) -> bool {
    state.users@.contains_key(user_id) && eq_ignore_ascii_case(
        state.users@[user_id].email@,
        email,
    )
}

/// The answer to a login at the second `now`. An unknown email and a wrong
/// password get one and the same answer. A password that matches gets the
/// profile and a token for the user's id that expires an hour after `now`.
pub open spec fn login_answer(
    state: &AppState,
    email: Seq<char>,
    password: Seq<char>,
    now: usize,
    r: Result<AuthResponse, AppError>,
) -> bool {
    if !state.email_taken(email) {
        r is Err && r->Err_0.is(ErrorKind::Unauthorized, "Invalid credentials"@)
    } else {
        forall|k: u128| #[trigger]
            has_email(state, k, email) ==> match bcrypt_verdict(
                password,
                state.users@[k].password_hash@,
            ) {
                None => r is Err && r->Err_0.spec_kind() == ErrorKind::InternalServerError,
                Some(false) => r is Err && r->Err_0.is(
                    ErrorKind::Unauthorized,
                    "Invalid credentials"@,
                ),
                Some(true) => match hs256_token(
                    uuid_hyphenated(k),
                    (now + TOKEN_TTL_SECONDS) as usize,
                    state.jwt_secret@,
                ) {
                    Some(token) => r is Ok && r->Ok_0.token@ == token && r->Ok_0.user@
                        == state.users@[k]@.profile(),
                    None => r is Err && r->Err_0.spec_kind() == ErrorKind::InternalServerError,
                },
            }
    }
}

/// The password of a login matches the credential of the user with this
/// email.
pub open spec fn credentials_match(state: &AppState, email: Seq<char>, password: Seq<char>)
    -> bool {
    exists|k: u128| #[trigger]
        has_email(state, k, email) && bcrypt_verdict(password, state.users@[k].password_hash@)
            == Some(true)
}

/// Equality up to ASCII case does not depend on the side.
pub proof fn lemma_eq_ignore_ascii_case_symmetric(a: Seq<char>, b: Seq<char>)
    requires
        eq_ignore_ascii_case(a, b),
    ensures
        eq_ignore_ascii_case(b, a),
{
    assert forall|i: int| 0 <= i < b.len() implies crate::text::fold_code(#[trigger] b[i])
        == crate::text::fold_code(a[i]) by {
        let _ = a[i];
    }
}

/// The id of a user whose email is `email` up to ASCII case, or `None`
/// where no user has it. In a well-formed store at most one user has it.
pub fn find_user_by_email(state: &AppState, email: &str) -> (r: Option<u128>)
    ensures
        match r {
            Some(id) => has_email(state, id, email@),
            None => !state.email_taken(email@),
        },
{
    let ids = state.user_ids();
    let mut i: usize = 0;
    while i < ids.len()
        invariant
            i <= ids.len(),
            ids@.to_set() == state.users@.dom(),
            forall|j: int| 0 <= j < i ==> !has_email(state, #[trigger] ids@[j], email@),
        decreases ids.len() - i,
    {
        assert(ids@.to_set().contains(ids@[i as int]));
        if let Some(user) = state.users.get(&ids[i]) {
            if str_eq_ignore_ascii_case(user.email.as_str(), email) {
                return Some(ids[i]);
            }
        }
        i = i + 1;
    }
    proof {
        if state.email_taken(email@) {
            let k = choose|k: u128| #[trigger]
                state.users@.contains_key(k) && eq_ignore_ascii_case(
                    state.users@[k].email@,
                    email@,
                );
            assert(ids@.to_set().contains(k));
            let j = choose|j: int| 0 <= j < ids@.len() && ids@[j] == k;
            assert(has_email(state, ids@[j], email@));
        }
    }
    None
}

/// Files a new student under the id `id` and returns the profile. A user
/// that was filed under this id before is replaced.
pub fn store_user(state: &mut AppState, id: u128, payload: NewUser, password_hash: String) -> (r:
    UserProfile)
    ensures
        r@ == new_user(id, payload, password_hash@).profile(),
        final(state).users@.contains_key(id),
        final(state).users@[id]@ == new_user(id, payload, password_hash@),
        final(state).users_view() == old(state).users_view().insert(
            id,
            new_user(id, payload, password_hash@),
        ),
        old(state).users@.contains_key(id) ==> final(state).users@.len() == old(state).users@.len(),
        !old(state).users@.contains_key(id) ==> final(state).users@.len() == old(state).users@.len()
            + 1,
        final(state).courses@ == old(state).courses@,
        final(state).payments@ == old(state).payments@,
        final(state).jwt_secret@ == old(state).jwt_secret@,
        final(state).same_sequences(old(state)),
        old(state).wf() && !old(state).email_taken(payload.email@) ==> final(state).wf(),
{
    let NewUser { name, email, password: _ } = payload;
    let stored = StoredUser {
        id,
        name,
        email,
        password_hash,
        role: UserRole::Student,
        progress: Vec::new(),
    };
    assert(stored@.progress =~= Seq::empty());
    let profile = stored.as_profile();
    let ghost before = state.users@;
    state.users.insert(id, stored);
    proof {
        assert(state.users@ == before.insert(id, stored));
        assert(state.users_view() =~= old(state).users_view().insert(
            id,
            new_user(id, payload, password_hash@),
        ));
        if old(state).wf() && !old(state).email_taken(payload.email@) {
            assert forall|a: u128, b: u128|
                #![trigger state.users@.contains_key(a), state.users@.contains_key(b)]
                state.users@.contains_key(a) && state.users@.contains_key(b) && a
                    != b implies !eq_ignore_ascii_case(
                state.users@[a].email@,
                state.users@[b].email@,
            ) by {
                if a == id {
                    assert(before.contains_key(b));
                    if eq_ignore_ascii_case(payload.email@, before[b].email@) {
                        lemma_eq_ignore_ascii_case_symmetric(payload.email@, before[b].email@);
                    }
                } else if b == id {
                    assert(before.contains_key(a));
                } else {
                    assert(before.contains_key(a) && before.contains_key(b));
                }
            }
        }
    }
    profile
}

/// What the answer of the hasher means: a hash is handed on, a failure is
/// an internal error with the text of the failure.
pub fn hashing_outcome(hashed: Result<String, String>) -> (r: Result<String, AppError>)
    ensures
        match hashed {
            Ok(hash) => r is Ok && r->Ok_0@ == hash@,
            Err(text) => r is Err && r->Err_0.is(ErrorKind::InternalServerError, text@),
        },
{
    match hashed {
        Ok(hash) => Ok(hash),
        Err(text) => Err(AppError::InternalServerError(text)),
    }
}

/// Hashes a password for storage. The hash verifies against the password;
/// a failure of the hasher is an internal error.
pub fn hash_password(password: &str) -> (r: Result<String, AppError>)
    ensures
        match r {
            Ok(hash) => bcrypt_verdict(password@, hash@) == Some(true),
            Err(e) => e.spec_kind() == ErrorKind::InternalServerError,
        },
{
    let hashed = match bcrypt_hash(password) {
        Ok(hash) => Ok(hash),
        Err(e) => Err(bcrypt_error_text(&e)),
    };
    hashing_outcome(hashed)
}

/// Files a new student under the id `id` where no user holds that id, and
/// fails with an internal error, changing nothing, where one does.
pub fn store_fresh_user(state: &mut AppState, id: u128, payload: NewUser, password_hash: String)
    -> (r: Result<UserProfile, AppError>)
    ensures
        old(state).users@.contains_key(id) ==> r is Err && r->Err_0.is(
            ErrorKind::InternalServerError,
            "Identifier already in use"@,
        ) && final(state).users@ == old(state).users@,
        !old(state).users@.contains_key(id) ==> {
            let stored = new_user(id, payload, password_hash@);
            &&& r is Ok
            &&& r->Ok_0@ == stored.profile()
            &&& final(state).users@.contains_key(id)
            &&& final(state).users@[id]@ == stored
            &&& final(state).users_view() == old(state).users_view().insert(id, stored)
            &&& final(state).users@.len() == old(state).users@.len() + 1
        },
        final(state).courses@ == old(state).courses@,
        final(state).payments@ == old(state).payments@,
        final(state).jwt_secret@ == old(state).jwt_secret@,
        final(state).same_sequences(old(state)),
        old(state).wf() && !old(state).email_taken(payload.email@) ==> final(state).wf(),
{
    if state.users.contains_key(&id) {
        return Err(AppError::InternalServerError(String::from_str("Identifier already in use")));
    }
    let profile = store_user(state, id, payload, password_hash);
    Ok(profile)
}

/// Registers a student. The email must match the pattern, the password must
/// satisfy the policy, and no user may have the email up to ASCII case;
/// each is refused as a bad request, in this order. Then the password is
/// hashed and the user is stored under a fresh random id, one that no user
/// holds. A refused or failed registration changes nothing.
pub fn register_user(state: &mut AppState, payload: NewUser) -> (r: Result<UserProfile, AppError>)
    ensures
        !email_ok(payload.email@) ==> r is Err && r->Err_0.is(
            ErrorKind::BadRequest,
            "Invalid email format"@,
        ),
        email_ok(payload.email@) && !password_ok(payload.password@) ==> r is Err && r->Err_0.is(
            ErrorKind::BadRequest,
            "Password must be at least 8 characters long"@,
        ),
        email_ok(payload.email@) && password_ok(payload.password@) && old(state).email_taken(
            payload.email@,
        ) ==> r is Err && r->Err_0.is(ErrorKind::BadRequest, "Email already in use"@),
        email_ok(payload.email@) && password_ok(payload.password@) && !old(state).email_taken(
            payload.email@,
        ) ==> match r {
            Ok(profile) => {
                let stored = final(state).users@[profile.id]@;
                &&& is_v4_uuid(profile.id)
                &&& !old(state).users@.contains_key(profile.id)
                &&& final(state).users@.contains_key(profile.id)
                &&& stored == new_user(profile.id, payload, stored.password_hash)
                &&& bcrypt_verdict(payload.password@, stored.password_hash) == Some(true)
                &&& profile@ == stored.profile()
                &&& final(state).users_view() == old(state).users_view().insert(profile.id, stored)
                &&& final(state).users@.len() == old(state).users@.len() + 1
                &&& final(state).email_taken(payload.email@)
            },
            Err(e) => e.spec_kind() == ErrorKind::InternalServerError,
        },
        r is Err ==> final(state).users@ == old(state).users@,
        final(state).courses@ == old(state).courses@,
        final(state).payments@ == old(state).payments@,
        final(state).jwt_secret@ == old(state).jwt_secret@,
        final(state).same_sequences(old(state)),
        old(state).wf() ==> final(state).wf(),
{
    if let Err(message) = validate_email(payload.email.as_str()) {
        return Err(AppError::BadRequest(message));
    }
    if let Err(message) = validate_password(payload.password.as_str()) {
        return Err(AppError::BadRequest(message));
    }
    if find_user_by_email(state, payload.email.as_str()).is_some() {
        return Err(AppError::BadRequest(String::from_str("Email already in use")));
    }
    let password_hash = match hash_password(payload.password.as_str()) {
        Ok(hash) => hash,
        Err(e) => {
            return Err(e);
        },
    };
    let id = fresh_uuid();
    let r = store_fresh_user(state, id, payload, password_hash);
    proof {
        if r is Ok {
            lemma_eq_ignore_ascii_case_reflexive(payload.email@);
            assert(has_email(state, id, payload.email@));
        }
    }
    r
}

/// Every text equals itself up to ASCII case.
pub proof fn lemma_eq_ignore_ascii_case_reflexive(a: Seq<char>)
    ensures
        eq_ignore_ascii_case(a, a),
{
}

/// Once a user holds an email, every spelling of it that differs in the
/// case of ASCII letters only is taken, so a registration under such a
/// spelling is refused as long as the user is in the store.
pub proof fn lemma_email_taken_in_any_case(
    state: &AppState,
    user_id: u128,
    email: Seq<char>,
    spelling: Seq<char>,
)
    requires
        state.users@.contains_key(user_id),
        state.users@[user_id].email@ == email,
        eq_ignore_ascii_case(email, spelling),
    ensures
        state.email_taken(spelling),
{
    assert(has_email(state, user_id, spelling));
}

/// What the check of a password means for a login: a match lets it pass, a
/// mismatch is answered like an unknown email, and a check that failed is
/// an internal error with the text of the failure.
pub fn credentials_outcome(verified: Result<bool, String>) -> (r: Result<(), AppError>)
    ensures
        match verified {
            Ok(true) => r is Ok,
            Ok(false) => r is Err && r->Err_0.is(ErrorKind::Unauthorized, "Invalid credentials"@),
            Err(text) => r is Err && r->Err_0.is(ErrorKind::InternalServerError, text@),
        },
{
    match verified {
        Ok(true) => Ok(()),
        Ok(false) => Err(AppError::Unauthorized(String::from_str("Invalid credentials"))),
        Err(text) => Err(AppError::InternalServerError(text)),
    }
}

/// The claims of a token issued at the second `now` for the user whose id
/// has the text `subject`: it expires exactly one hour later.
pub fn issue_claims(subject: String, now: usize) -> (r: Claims)
    requires
        now + TOKEN_TTL_SECONDS <= usize::MAX,
    ensures
        r.sub@ == subject@,
        r.exp == now + TOKEN_TTL_SECONDS,
{
    Claims { sub: subject, exp: now + TOKEN_TTL_SECONDS }
}

/// What the signer's answer means for a login: a token goes out with the
/// profile, a failure is an internal error with the text of the failure.
pub fn auth_response(signed: Result<String, String>, user: UserProfile) -> (r: Result<
    AuthResponse,
    AppError,
>)
    ensures
        match signed {
            Ok(token) => r is Ok && r->Ok_0.token@ == token@ && r->Ok_0.user@ == user@,
            Err(text) => r is Err && r->Err_0.is(ErrorKind::InternalServerError, text@),
        },
{
    match signed {
        Ok(token) => Ok(AuthResponse { token, user }),
        Err(text) => Err(AppError::InternalServerError(text)),
    }
}

/// Finds the user of a login and checks the password against the stored
/// credential. An unknown email and a wrong password fail alike.
pub fn authenticate(state: &AppState, payload: &LoginRequest) -> (r: Result<u128, AppError>)
    requires
        state.wf(),
    ensures
        !state.email_taken(payload.email@) ==> r is Err && r->Err_0.is(
            ErrorKind::Unauthorized,
            "Invalid credentials"@,
        ),
        forall|k: u128| #[trigger]
            has_email(state, k, payload.email@) ==> match bcrypt_verdict(
                payload.password@,
                state.users@[k].password_hash@,
            ) {
                None => r is Err && r->Err_0.spec_kind() == ErrorKind::InternalServerError,
                Some(false) => r is Err && r->Err_0.is(
                    ErrorKind::Unauthorized,
                    "Invalid credentials"@,
                ),
                Some(true) => r == Ok::<u128, AppError>(k),
            },
        r matches Ok(id) ==> has_email(state, id, payload.email@) && bcrypt_verdict(
            payload.password@,
            state.users@[id].password_hash@,
        ) == Some(true),
{
    let id = match find_user_by_email(state, payload.email.as_str()) {
        Some(id) => id,
        None => {
            return Err(AppError::Unauthorized(String::from_str("Invalid credentials")));
        },
    };
    assert(state.email_taken(payload.email@));
    proof {
        assert forall|k: u128| #[trigger] has_email(state, k, payload.email@) implies k == id by {
            if k != id {
                lemma_eq_ignore_ascii_case_symmetric(state.users@[k].email@, payload.email@);
                lemma_eq_ignore_ascii_case_chain(
                    state.users@[id].email@,
                    payload.email@,
                    state.users@[k].email@,
                );
            }
        }
    }
    let stored = match state.users.get(&id) {
        Some(stored) => stored,
        None => {
            return Err(AppError::Unauthorized(String::from_str("Invalid credentials")));
        },
    };
    let verified = match bcrypt_verify(payload.password.as_str(), stored.password_hash.as_str()) {
        Ok(matches) => Ok(matches),
        Err(e) => Err(bcrypt_error_text(&e)),
    };
    match credentials_outcome(verified) {
        Ok(()) => Ok(id),
        Err(e) => Err(e),
    }
}

/// Equality up to ASCII case carries over a text in the middle.
pub proof fn lemma_eq_ignore_ascii_case_chain(a: Seq<char>, b: Seq<char>, c: Seq<char>)
    requires
        eq_ignore_ascii_case(a, b),
        eq_ignore_ascii_case(b, c),
    ensures
        eq_ignore_ascii_case(a, c),
{
    assert forall|i: int| 0 <= i < a.len() implies crate::text::fold_code(#[trigger] a[i])
        == crate::text::fold_code(c[i]) by {
        let _ = b[i];
    }
}

/// Signs a token for the user with this id, issued at the second `now`,
/// and returns it with the user's profile.
pub fn issue_token(state: &AppState, user_id: u128, now: usize) -> (r: Result<
    AuthResponse,
    AppError,
>)
    requires
        state.wf(),
        state.users@.contains_key(user_id),
        now + TOKEN_TTL_SECONDS <= usize::MAX,
    ensures
        match hs256_token(
            uuid_hyphenated(user_id),
            (now + TOKEN_TTL_SECONDS) as usize,
            state.jwt_secret@,
        ) {
            Some(token) => r is Ok && r->Ok_0.token@ == token && r->Ok_0.user@
                == state.users@[user_id]@.profile(),
            None => r is Err && r->Err_0.spec_kind() == ErrorKind::InternalServerError,
        },
{
    let stored = match state.users.get(&user_id) {
        Some(stored) => stored,
        None => {
            return Err(AppError::NotFound(String::from_str("User not found")));
        },
    };
    let claims = issue_claims(uuid_text(stored.id), now);
    let signed = match sign_hs256(claims.sub.as_str(), claims.exp, state.jwt_secret.as_str()) {
        Ok(token) => Ok(token),
        Err(e) => Err(token_error_text(&e)),
    };
    auth_response(signed, stored.as_profile())
}

/// The answer to a login at any second `now`. Where an hour after `now`
/// still has a value, it is `login_answer`. Where it has none, credentials
/// that match fail with an internal error, and all others are answered as
/// at any other second.
pub open spec fn login_at_answer(
    state: &AppState,
    email: Seq<char>,
    password: Seq<char>,
    now: usize,
    r: Result<AuthResponse, AppError>,
) -> bool {
    if now + TOKEN_TTL_SECONDS <= usize::MAX {
        login_answer(state, email, password, now, r)
    } else if credentials_match(state, email, password) {
        r is Err && r->Err_0.is(ErrorKind::InternalServerError, "Clock out of range"@)
    } else {
        login_answer(state, email, password, 0, r)
    }
}

/// A login at the second `now`; see `login_at_answer`.
pub fn login_user_at(state: &AppState, payload: LoginRequest, now: usize) -> (r: Result<
    AuthResponse,
    AppError,
>)
    requires
        state.wf(),
    ensures
        login_at_answer(state, payload.email@, payload.password@, now, r),
{
    match authenticate(state, &payload) {
        Ok(id) => {
            if now > usize::MAX - TOKEN_TTL_SECONDS {
                Err(AppError::InternalServerError(String::from_str("Clock out of range")))
            } else {
                issue_token(state, id, now)
            }
        },
        Err(e) => {
            proof {
                lemma_one_user_per_email(state, payload.email@);
            }
            Err(e)
        },
    }
}

/// In a well-formed store at most one user has a given email up to ASCII
/// case.
pub proof fn lemma_one_user_per_email(state: &AppState, email: Seq<char>)
    requires
        state.wf(),
    ensures
        forall|a: u128, b: u128|
            has_email(state, a, email) && has_email(state, b, email) ==> a == b,
{
    assert forall|a: u128, b: u128|
        has_email(state, a, email) && has_email(state, b, email) implies a == b by {
        if a != b {
            lemma_eq_ignore_ascii_case_symmetric(state.users@[b].email@, email);
            lemma_eq_ignore_ascii_case_chain(state.users@[a].email@, email, state.users@[b].email@);
        }
    }
}

/// The present second of the system clock, counted from the Unix epoch, and
/// zero where the clock stands before the epoch.
pub(crate) fn current_timestamp() -> (r: usize) {
    match since_unix_epoch(&system_now()) {
        Some(elapsed) => {
            let seconds: u64 = whole_seconds(&elapsed);
            #[verifier::truncate]
            (seconds as usize)
        },
        None => 0,
    }
}

/// A login at the present second of the system clock: the answer is that of
/// `login_user_at` for the second that the clock gave.
pub fn login_user(state: &AppState, payload: LoginRequest) -> (r: Result<AuthResponse, AppError>)
    requires
        state.wf(),
    ensures
        exists|now: usize| #[trigger]
            login_at_answer(state, payload.email@, payload.password@, now, r),
{
    login_user_at(state, payload, current_timestamp())
}

/// An unknown email and a wrong password are answered alike, whatever the
/// clock says: both logins fail as unauthorized, with one and the same
/// message.
pub proof fn lemma_login_failures_alike(
    state: &AppState,
    unknown_email: Seq<char>,
    any_password: Seq<char>,
    known_email: Seq<char>,
    wrong_password: Seq<char>,
    user_id: u128,
    now_first: usize,
    now_second: usize,
    first: Result<AuthResponse, AppError>,
    second: Result<AuthResponse, AppError>,
)
    requires
        state.wf(),
        !state.email_taken(unknown_email),
        has_email(state, user_id, known_email),
        bcrypt_verdict(wrong_password, state.users@[user_id].password_hash@) == Some(false),
        login_at_answer(state, unknown_email, any_password, now_first, first),
        login_at_answer(state, known_email, wrong_password, now_second, second),
    ensures
        first is Err,
        second is Err,
        first->Err_0.is(ErrorKind::Unauthorized, "Invalid credentials"@),
        second->Err_0.is(ErrorKind::Unauthorized, "Invalid credentials"@),
        first->Err_0.spec_message() == second->Err_0.spec_message(),
{
    lemma_one_user_per_email(state, known_email);
    assert(!credentials_match(state, known_email, wrong_password));
    if credentials_match(state, unknown_email, any_password) {
        let k = choose|k: u128| #[trigger]
            has_email(state, k, unknown_email) && bcrypt_verdict(
                any_password,
                state.users@[k].password_hash@,
            ) == Some(true);
        assert(state.users@.contains_key(k));
    }
}

/// What the decoder's answer means for a token: claims that hold a subject
/// and an expiry that has a value here are handed on; a token that the
/// decoder turned down is unauthorized, with the text of the failure, and
/// so is one whose claims lack either.
pub fn claims_outcome(decoded: Result<(Option<String>, Option<u64>), String>) -> (r: Result<
    Claims,
    AppError,
>)
    ensures
        match decoded {
            Ok((Some(sub), Some(exp))) => if exp <= usize::MAX {
                r is Ok && r->Ok_0.sub@ == sub@ && r->Ok_0.exp == exp
            } else {
                r is Err && r->Err_0.is(ErrorKind::Unauthorized, "Invalid token claims"@)
            },
            Ok(_) => r is Err && r->Err_0.is(ErrorKind::Unauthorized, "Invalid token claims"@),
            Err(text) => r is Err && r->Err_0.is(ErrorKind::Unauthorized, text@),
        },
{
    match decoded {
        Ok((Some(sub), Some(exp))) => {
            if exp <= usize::MAX as u64 {
                Ok(Claims { sub, exp: exp as usize })
            } else {
                Err(AppError::Unauthorized(String::from_str("Invalid token claims")))
            }
        },
        Ok(_) => Err(AppError::Unauthorized(String::from_str("Invalid token claims"))),
        Err(text) => Err(AppError::Unauthorized(text)),
    }
}

/// Reads the claims of a token that was signed with the store's secret and
/// has not expired by the system clock. Every failure is unauthorized.
pub fn validate_token(state: &AppState, token: &str) -> (r: Result<Claims, AppError>)
    ensures
        r is Err ==> r->Err_0.spec_kind() == ErrorKind::Unauthorized,
{
    let decoded = match decode_hs256(token, state.jwt_secret.as_str()) {
        Ok(claims) => Ok(claims),
        Err(e) => Err(token_error_text(&e)),
    };
    claims_outcome(decoded)
}

/// The public profile of the user with this id.
pub fn get_user_profile(state: &AppState, user_id: u128) -> (r: Result<UserProfile, AppError>)
    ensures
        match r {
            Ok(profile) => state.users@.contains_key(user_id) && profile@
                == state.users@[user_id]@.profile(),
            Err(e) => !state.users@.contains_key(user_id) && e.is(
                ErrorKind::NotFound,
                "User not found"@,
            ),
        },
{
    match state.users.get(&user_id) {
        Some(stored) => Ok(stored.as_profile()),
        None => Err(AppError::NotFound(String::from_str("User not found"))),
    }
}

/// What a partial update leaves of a user, given what became of the new
/// password: `None` where the payload holds none or it was not hashed.
pub open spec fn updated_user(user: StoredUserView, name: Option<String>, new_hash: Option<String>)
    -> StoredUserView {
    match new_hash {
        Some(hash) => rehashed(renamed(user, name), hash@),
        None => renamed(user, name),
    }
}

/// Writes a name and a credential hash, each where one is given, into the
/// user with this id and returns the profile.
pub fn apply_profile_update(
    state: &mut AppState,
    user_id: u128,
    name: Option<String>,
    new_hash: Option<String>,
) -> (r: UserProfile)
    requires
        old(state).users@.contains_key(user_id),
    ensures
        final(state).users@.contains_key(user_id),
        final(state).users@[user_id]@ == updated_user(old(state).users@[user_id]@, name, new_hash),
        final(state).users_view() == old(state).users_view().insert(
            user_id,
            updated_user(old(state).users@[user_id]@, name, new_hash),
        ),
        r@ == final(state).users@[user_id]@.profile(),
        final(state).courses@ == old(state).courses@,
        final(state).payments@ == old(state).payments@,
        final(state).jwt_secret@ == old(state).jwt_secret@,
        final(state).same_sequences(old(state)),
        old(state).wf() ==> final(state).wf(),
{
    let ghost before = state.users@;
    let removed = state.users.remove(&user_id);
    let mut stored = removed.unwrap();
    let ghost old_stored = stored;
    if let Some(new_name) = name {
        stored.name = new_name;
    }
    if let Some(hash) = new_hash {
        stored.password_hash = hash;
    }
    let profile = stored.as_profile();
    state.users.insert(user_id, stored);
    proof {
        assert(state.users@ == before.insert(user_id, stored));
        assert(state.users_view() =~= old(state).users_view().insert(user_id, stored@));
        if old(state).wf() {
            assert forall|a: u128, b: u128|
                #![trigger state.users@.contains_key(a), state.users@.contains_key(b)]
                state.users@.contains_key(a) && state.users@.contains_key(b) && a
                    != b implies !eq_ignore_ascii_case(
                state.users@[a].email@,
                state.users@[b].email@,
            ) by {
                assert(before.contains_key(a) && before.contains_key(b));
                assert(stored.email@ == before[user_id].email@);
            }
        }
    }
    profile
}

/// Applies a partial update to the profile of the user with this id. An
/// unknown id and a blank name are refused and change nothing. A name that
/// is given is written first; a password that is given must then satisfy
/// the policy and is hashed, and where that fails the call fails with the
/// name already written. The email cannot be changed.
pub fn update_user_profile(state: &mut AppState, user_id: u128, payload: UpdateUser) -> (r: Result<
    UserProfile,
    AppError,
>)
    ensures
        !old(state).users@.contains_key(user_id) ==> r is Err && r->Err_0.is(
            ErrorKind::NotFound,
            "User not found"@,
        ) && final(state).users@ == old(state).users@,
        old(state).users@.contains_key(user_id) && name_refused(payload) ==> r is Err
            && r->Err_0.is(ErrorKind::BadRequest, "Name cannot be empty"@) && final(state).users@
            == old(state).users@,
        old(state).users@.contains_key(user_id) && !name_refused(payload) ==> {
            let base = renamed(old(state).users@[user_id]@, payload.name);
            let after = final(state).users@[user_id]@;
            &&& final(state).users@.contains_key(user_id)
            &&& final(state).users_view() == old(state).users_view().insert(user_id, after)
            &&& match payload.password {
                None => r is Ok && after == base,
                Some(password) => if !password_ok(password@) {
                    r is Err && r->Err_0.is(
                        ErrorKind::BadRequest,
                        "Password must be at least 8 characters long"@,
                    ) && after == base
                } else {
                    match r {
                        Ok(_) => after == rehashed(base, after.password_hash) && bcrypt_verdict(
                            password@,
                            after.password_hash,
                        ) == Some(true),
                        Err(e) => e.spec_kind() == ErrorKind::InternalServerError && after == base,
                    }
                },
            }
            &&& r is Ok ==> r->Ok_0@ == after.profile()
        },
        final(state).courses@ == old(state).courses@,
        final(state).payments@ == old(state).payments@,
        final(state).jwt_secret@ == old(state).jwt_secret@,
        final(state).same_sequences(old(state)),
        old(state).wf() ==> final(state).wf(),
{
    if !state.users.contains_key(&user_id) {
        return Err(AppError::NotFound(String::from_str("User not found")));
    }
    let UpdateUser { name, password } = payload;
    if let Some(new_name) = &name {
        if is_blank(new_name.as_str()) {
            return Err(AppError::BadRequest(String::from_str("Name cannot be empty")));
        }
    }
    let hashed: Result<Option<String>, AppError> = match &password {
        None => Ok(None),
        Some(new_password) => match validate_password(new_password.as_str()) {
            Err(message) => Err(AppError::BadRequest(message)),
            Ok(()) => match hash_password(new_password.as_str()) {
                Ok(hash) => Ok(Some(hash)),
                Err(e) => Err(e),
            },
        },
    };
    match hashed {
        Ok(new_hash) => Ok(apply_profile_update(state, user_id, name, new_hash)),
        Err(e) => {
            let _ = apply_profile_update(state, user_id, name, None);
            Err(e)
        },
    }
}

} // verus!
