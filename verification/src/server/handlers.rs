//! Request and response bodies of the HTTP API, and the decisions the
//! handlers take before and after touching the store : which requests
//! are refused, with which status and message, and how rows are shown.

use vstd::prelude::*;
use crate::ids::{UserId, uuid_parse, uuid_text};
use crate::server::store::{RoomRole, UserRoomRow, role_from_text, role_text};
use crate::server::users::UserRecord;
use crate::text::{all_ws, byte_len, has_char, is_blank, str_starts_with, trim, trim_seq};

verus! {

/// Request body for `POST /api/auth/login`.
#[derive(Debug)]
pub struct LoginRequest {
    /// Login email.
    pub email: String,
    /// Plaintext password.
    pub password: String,
}

/// Request body for `POST /api/auth/register`.
#[derive(Debug)]
pub struct RegisterRequest {
    /// Login email.
    pub email: String,
    /// Plaintext password.
    pub password: String,
    /// Display name advertised to peers.
    pub display_name: String,
}

/// Request body for `POST /api/auth/refresh`.
#[derive(Debug)]
pub struct RefreshRequest {
    /// Previously-issued refresh token.
    pub refresh_token: String,
}

/// Response body for login / register / refresh on success.
#[derive(Debug)]
pub struct AuthResponse {
    /// Server-issued user id.
    pub user_id: String,
    /// Display name (mirrors the user record).
    pub display_name: String,
    /// JWT access token.
    pub access_token: String,
    /// JWT refresh token.
    pub refresh_token: String,
    /// Unix timestamp (seconds) at which the access token expires.
    pub access_expires_at: u64,
}

/// Error body returned on failure.
#[derive(Debug)]
pub struct AuthError {
    /// Stable machine-readable code (e.g. `"invalid_credentials"`).
    pub code: &'static str,
    /// Human-readable message for the UI.
    pub message: String,
}

/// A refused request : the HTTP status and the error body.
#[derive(Debug)]
pub struct Refusal {
    /// HTTP status code.
    pub status: u16,
    /// Error body.
    pub error: AuthError,
}

/// Server identification advertised to clients by `GET /api/info`.
#[derive(Debug)]
pub struct ServerInfo {
    /// Human-readable server name.
    pub name: &'static str,
    /// Server binary version.
    pub version: &'static str,
    /// Wire protocol version.
    pub protocol: &'static str,
}

/// A room as returned by the list / create endpoints.
#[derive(Debug)]
pub struct RoomView {
    /// Room id (used in the WS URL).
    pub id: String,
    /// Display name.
    pub name: String,
    /// User who created the room.
    pub created_by: String,
    /// Caller's role in the room.
    pub role: String,
    /// Unix seconds of creation.
    pub created_at: i64,
}

/// Body of `POST /api/rooms`.
#[derive(Debug)]
pub struct CreateRoomRequest {
    /// Optional explicit id. If absent or blank, a fresh id is used.
    pub id: Option<String>,
    /// Display name. Must not be blank.
    pub name: String,
}

/// Body of `POST /api/rooms/:id/members`.
#[derive(Debug)]
pub struct AddMemberRequest {
    /// Email of the user to invite.
    pub email: String,
    /// Role to grant. Defaults to `"member"`.
    pub role: Option<String>,
}

/// Query-string parameters accepted on `/ws/rooms/{room_id}`.
#[derive(Debug)]
pub struct WsParams {
    /// Optional JWT access token.
    pub token: Option<String>,
}

/// HTTP 400.
pub const BAD_REQUEST: u16 = 400;
/// HTTP 401.
pub const UNAUTHORIZED: u16 = 401;
/// HTTP 403.
pub const FORBIDDEN: u16 = 403;
/// HTTP 404.
pub const NOT_FOUND: u16 = 404;
/// HTTP 409.
pub const CONFLICT: u16 = 409;
/// HTTP 500.
pub const INTERNAL_SERVER_ERROR: u16 = 500;

/// `r` is the refusal with this status, code and message.
pub open spec fn is_refusal(r: Refusal, status: u16, code: Seq<char>, message: Seq<char>) -> bool {
    r.status == status && r.error.code@ == code && r.error.message@ == message
}

fn refuse(status: u16, code: &'static str, message: &str) -> (r: Refusal)
    ensures
        r.status == status,
        r.error.code == code,
        r.error.message@ == message@,
{
    Refusal { status, error: AuthError { code, message: message.to_owned() } }
}

/// Validate a registration before anything is stored : the password
/// needs at least 8 bytes, the e-mail must not be blank and must hold an
/// `@`, the display name must not be blank. The first failed rule is
/// reported, with status 400.
pub fn validate_registration(req: &RegisterRequest) -> (r: Option<Refusal>)
    ensures
        match r {
            None => {
                &&& byte_len(req.password@) >= 8
                &&& !all_ws(req.email@)
                &&& req.email@.contains('@')
                &&& !all_ws(req.display_name@)
            },
            Some(f) => if byte_len(req.password@) < 8 {
                is_refusal(
                    f,
                    BAD_REQUEST,
                    "weak_password"@,
                    "Password must be at least 8 characters."@,
                )
            } else if all_ws(req.email@) || !req.email@.contains('@') {
                is_refusal(
                    f,
                    BAD_REQUEST,
                    "invalid_email"@,
                    "Please provide a valid email address."@,
                )
            } else {
                &&& all_ws(req.display_name@)
                &&& is_refusal(
                    f,
                    BAD_REQUEST,
                    "missing_display_name"@,
                    "Display name cannot be empty."@,
                )
            },
        },
{
    if req.password.as_str().len() < 8 {
        return Some(
            refuse(BAD_REQUEST, "weak_password", "Password must be at least 8 characters."),
        );
    }
    if is_blank(req.email.as_str()) || !has_char(req.email.as_str(), '@') {
        return Some(
            refuse(BAD_REQUEST, "invalid_email", "Please provide a valid email address."),
        );
    }
    if is_blank(req.display_name.as_str()) {
        return Some(
            refuse(BAD_REQUEST, "missing_display_name", "Display name cannot be empty."),
        );
    }
    None
}

/// The token of an `Authorization` header value of the form
/// `Bearer <token>`. A missing header, or one without that prefix, is
/// refused with status 401.
pub fn require_bearer(header: Option<&str>) -> (r: Result<&str, Refusal>)
    ensures
        match header {
            Some(h) if "Bearer "@.len() <= h@.len() && h@.subrange(0, 7) == "Bearer "@ => r matches Ok(
                t,
            ) && t@ == h@.skip(7),
            _ => r matches Err(f) && is_refusal(
                f,
                UNAUTHORIZED,
                "missing_token"@,
                "Authorization: Bearer <token> required."@,
            ),
        },
{
    proof {
        reveal_strlit("Bearer ");
    }
    match header {
        Some(h) => {
            if str_starts_with(h, "Bearer ") {
                let n = h.unicode_len();
                let t = h.substring_char(7, n);
                assert(t@ =~= h@.skip(7));
                Ok(t)
            } else {
                Err(refuse(UNAUTHORIZED, "missing_token", "Authorization: Bearer <token> required."))
            }
        },
        None => Err(refuse(UNAUTHORIZED, "missing_token", "Authorization: Bearer <token> required.")),
    }
}

/// The caller of a request whose token verified : an access token whose
/// subject is a user id. A refresh token, or a subject that is not a
/// user id, is refused with status 401.
pub fn access_subject(is_access_token: bool, subject: &str) -> (r: Result<UserId, Refusal>)
    ensures
        !is_access_token ==> (r matches Err(f) && is_refusal(
            f,
            UNAUTHORIZED,
            "wrong_token_type"@,
            "Expected an access token."@,
        )),
        is_access_token ==> match uuid_parse(subject@) {
            Ok(v) => r == Ok::<UserId, Refusal>(UserId(v)),
            Err(m) => r matches Err(f) && is_refusal(
                f,
                UNAUTHORIZED,
                "invalid_subject"@,
                "token subject is not a user id : "@ + m,
            ),
        },
{
    if !is_access_token {
        return Err(refuse(UNAUTHORIZED, "wrong_token_type", "Expected an access token."));
    }
    match UserId::parse_str(subject) {
        Ok(id) => Ok(id),
        Err(m) => {
            let msg = "token subject is not a user id : ".to_owned().concat(m.as_str());
            Err(refuse(UNAUTHORIZED, "invalid_subject", msg.as_str()))
        },
    }
}

/// The name a new room is stored under : the requested name without
/// surrounding white space. A name that is blank once trimmed is
/// refused with status 400.
pub fn room_name(name: &str) -> (r: Result<&str, Refusal>)
    ensures
        trim_seq(name@).len() > 0 ==> (r matches Ok(n) && n@ == trim_seq(name@)),
        trim_seq(name@).len() == 0 ==> (r matches Err(f) && is_refusal(
            f,
            BAD_REQUEST,
            "invalid_name"@,
            "Room name cannot be empty."@,
        )),
{
    let trimmed = trim(name);
    if trimmed.is_empty() {
        Err(refuse(BAD_REQUEST, "invalid_name", "Room name cannot be empty."))
    } else {
        Ok(trimmed)
    }
}

/// The id of a new room : the requested id when it is present and not
/// blank, `generated` otherwise.
pub fn pick_room_id(requested: Option<String>, generated: String) -> (id: String)
    ensures
        match requested {
            Some(req) if !all_ws(req@) => id == req,
            _ => id == generated,
        },
{
    match requested {
        Some(req) => {
            if is_blank(req.as_str()) {
                generated
            } else {
                req
            }
        },
        None => generated,
    }
}

/// Only the room owner manages members : any other caller (a plain
/// member, or someone outside the room) is refused with status 403.
/// `kick` selects the message of the removal endpoint.
pub fn require_owner(caller_role: Option<RoomRole>, kick: bool) -> (r: Option<Refusal>)
    ensures
        caller_role == Some(RoomRole::Owner) ==> r is None,
        caller_role != Some(RoomRole::Owner) ==> (r matches Some(f) && is_refusal(
            f,
            FORBIDDEN,
            "forbidden"@,
            if kick {
                "Only the room owner can kick members."@
            } else {
                "Only the room owner can invite members."@
            },
        )),
{
    match caller_role {
        Some(RoomRole::Owner) => None,
        _ => {
            if kick {
                Some(refuse(FORBIDDEN, "forbidden", "Only the room owner can kick members."))
            } else {
                Some(refuse(FORBIDDEN, "forbidden", "Only the room owner can invite members."))
            }
        },
    }
}

/// The role granted to an invited user : the requested role when it is
/// a known role, `Member` otherwise.
pub fn requested_role(role: Option<&str>) -> (r: RoomRole)
    ensures
        r == match role {
            Some(s) => match role_from_text(s@) {
                Some(known) => known,
                None => RoomRole::Member,
            },
            None => RoomRole::Member,
        },
{
    match role {
        Some(s) => match RoomRole::parse(s) {
            Some(known) => known,
            None => RoomRole::Member,
        },
        None => RoomRole::Member,
    }
}

/// The user a removal targets, from the id in the URL. A text that is
/// not a user id is refused with status 400.
pub fn target_user(text: &str) -> (r: Result<UserId, Refusal>)
    ensures
        match uuid_parse(text@) {
            Ok(v) => r == Ok::<UserId, Refusal>(UserId(v)),
            Err(m) => r matches Err(f) && is_refusal(
                f,
                BAD_REQUEST,
                "invalid_user_id"@,
                "Bad user id : "@ + m,
            ),
        },
{
    match UserId::parse_str(text) {
        Ok(id) => Ok(id),
        Err(m) => {
            let msg = "Bad user id : ".to_owned().concat(m.as_str());
            Err(refuse(BAD_REQUEST, "invalid_user_id", msg.as_str()))
        },
    }
}

/// An owner cannot remove themselves from their room (status 400).
pub fn removal_refusal(caller: UserId, target: UserId) -> (r: Option<Refusal>)
    ensures
        caller != target ==> r is None,
        caller == target ==> (r matches Some(f) && is_refusal(
            f,
            BAD_REQUEST,
            "cannot_remove_self"@,
            "An owner cannot remove themselves."@,
        )),
{
    if caller == target {
        Some(refuse(BAD_REQUEST, "cannot_remove_self", "An owner cannot remove themselves."))
    } else {
        None
    }
}

/// How a membership row is shown in the room list.
pub fn room_view(row: UserRoomRow) -> (v: RoomView)
    ensures
        v.id == row.room.id,
        v.name == row.room.name,
        v.created_by@ == uuid_text(row.room.created_by.0),
        v.role@ == role_text(row.role),
        v.created_at == row.room.created_at,
{
    let created_by = row.room.created_by.to_string();
    let role = row.role.as_str().to_owned();
    RoomView { id: row.room.id, name: row.room.name, created_by, role, created_at: row.room.created_at }
}

/// How a freshly created room is shown to its creator : owned by the
/// caller, with creation time 0.
pub fn created_room_view(id: String, name: &str, creator: UserId) -> (v: RoomView)
    ensures
        v.id == id,
        v.name@ == name@,
        v.created_by@ == uuid_text(creator.0),
        v.role@ == role_text(RoomRole::Owner),
        v.created_at == 0,
{
    RoomView {
        id,
        name: name.to_owned(),
        created_by: creator.to_string(),
        role: RoomRole::Owner.as_str().to_owned(),
        created_at: 0,
    }
}

/// What verifying a WebSocket token gave.
#[derive(Clone, Copy, Debug, PartialEq, Eq, Structural)]
pub enum TokenCheck {
    /// A valid access token.
    Access,
    /// A valid token of another type (refresh).
    OtherType,
    /// The token did not verify.
    Invalid,
}

/// Whether a WebSocket upgrade is refused, and with which message
/// (status 401). Without required authentication every upgrade goes
/// through ; with it, the token must be present and be a valid access
/// token.
pub fn ws_upgrade_refusal(require_auth: bool, token_present: bool, check: TokenCheck) -> (r: Option<
    &'static str,
>)
    ensures
        !require_auth ==> r is None,
        require_auth && !token_present ==> (r matches Some(m) && m@ == "missing token"@),
        require_auth && token_present ==> match check {
            TokenCheck::Access => r is None,
            TokenCheck::OtherType => r matches Some(m) && m@ == "wrong token type"@,
            TokenCheck::Invalid => r matches Some(m) && m@ == "invalid token"@,
        },
{
    if !require_auth {
        None
    } else if !token_present {
        Some("missing token")
    } else {
        match check {
            TokenCheck::Access => None,
            TokenCheck::OtherType => Some("wrong token type"),
            TokenCheck::Invalid => Some("invalid token"),
        }
    }
}

/// The backend operations whose failure a handler reports as an
/// internal error.
#[derive(Clone, Copy, Debug, PartialEq, Eq, Structural)]
pub enum Backend {
    /// Checking credentials at login.
    Login,
    /// Storing a new account.
    Registration,
    /// Looking up the account behind a refresh token.
    Refresh,
    /// Minting a token.
    TokenIssue,
    /// Listing the caller's rooms.
    RoomListing,
    /// Creating a room.
    RoomCreation,
    /// Looking up the account to invite.
    MemberLookup,
    /// Adding a member to a room.
    MemberAdd,
    /// Removing a member from a room.
    MemberRemoval,
}

/// The message shown when a backend operation fails.
pub open spec fn backend_message(b: Backend) -> Seq<char> {
    match b {
        Backend::Login => "Authentication backend failed."@,
        Backend::Registration => "Registration backend failed."@,
        Backend::Refresh => "Refresh backend failed."@,
        Backend::TokenIssue => "Token issuance failed."@,
        Backend::RoomListing => "Room listing failed."@,
        Backend::RoomCreation => "Room creation failed."@,
        Backend::MemberLookup => "Member lookup failed."@,
        Backend::MemberAdd => "Adding member failed."@,
        Backend::MemberRemoval => "Removing member failed."@,
    }
}

/// The refusal for a failed backend operation : status 500, code
/// `internal_error`.
pub fn backend_failure(b: Backend) -> (r: Refusal)
    ensures
        is_refusal(r, INTERNAL_SERVER_ERROR, "internal_error"@, backend_message(b)),
{
    let message = match b {
        Backend::Login => "Authentication backend failed.",
        Backend::Registration => "Registration backend failed.",
        Backend::Refresh => "Refresh backend failed.",
        Backend::TokenIssue => "Token issuance failed.",
        Backend::RoomListing => "Room listing failed.",
        Backend::RoomCreation => "Room creation failed.",
        Backend::MemberLookup => "Member lookup failed.",
        Backend::MemberAdd => "Adding member failed.",
        Backend::MemberRemoval => "Removing member failed.",
    };
    refuse(INTERNAL_SERVER_ERROR, "internal_error", message)
}

/// The refusal for a bearer token that does not verify : status 401,
/// code `invalid_token`, the verifier's message.
pub fn invalid_token(detail: &str) -> (r: Refusal)
    ensures
        is_refusal(r, UNAUTHORIZED, "invalid_token"@, detail@),
{
    refuse(UNAUTHORIZED, "invalid_token", detail)
}

/// The outcome of a login, from what checking the credentials gave : the
/// account when the password matched ; 401 `invalid_credentials` when the
/// e-mail is unknown or the password wrong ; 500 when the check failed.
pub fn login_outcome<E>(checked: Result<Option<UserRecord>, E>) -> (r: Result<UserRecord, Refusal>)
    ensures
        match checked {
            Ok(Some(u)) => r == Ok::<UserRecord, Refusal>(u),
            Ok(None) => r matches Err(f) && is_refusal(
                f,
                UNAUTHORIZED,
                "invalid_credentials"@,
                "Email or password is incorrect."@,
            ),
            Err(_) => r matches Err(f) && is_refusal(
                f,
                INTERNAL_SERVER_ERROR,
                "internal_error"@,
                backend_message(Backend::Login),
            ),
        },
{
    match checked {
        Ok(Some(u)) => Ok(u),
        Ok(None) => Err(
            refuse(UNAUTHORIZED, "invalid_credentials", "Email or password is incorrect."),
        ),
        Err(_) => Err(backend_failure(Backend::Login)),
    }
}

/// The outcome of a registration, from what storing the account gave :
/// the new id ; 409 `email_taken` when the e-mail was already registered ;
/// 500 when storing failed.
pub fn registration_outcome<E>(stored: Result<Option<UserId>, E>) -> (r: Result<UserId, Refusal>)
    ensures
        match stored {
            Ok(Some(id)) => r == Ok::<UserId, Refusal>(id),
            Ok(None) => r matches Err(f) && is_refusal(
                f,
                CONFLICT,
                "email_taken"@,
                "An account with this email already exists."@,
            ),
            Err(_) => r matches Err(f) && is_refusal(
                f,
                INTERNAL_SERVER_ERROR,
                "internal_error"@,
                backend_message(Backend::Registration),
            ),
        },
{
    match stored {
        Ok(Some(id)) => Ok(id),
        Ok(None) => Err(
            refuse(CONFLICT, "email_taken", "An account with this email already exists."),
        ),
        Err(_) => Err(backend_failure(Backend::Registration)),
    }
}

/// Whether a refresh is refused at the token : `verified` is `Ok(true)`
/// for a valid refresh token, `Ok(false)` for a valid token of another
/// type (401 `wrong_token_type`) and the verifier's message for a token
/// that does not verify (401 `invalid_refresh`).
pub fn refresh_token_refusal(verified: Result<bool, String>) -> (r: Option<Refusal>)
    ensures
        match verified {
            Ok(true) => r is None,
            Ok(false) => r matches Some(f) && is_refusal(
                f,
                UNAUTHORIZED,
                "wrong_token_type"@,
                "Endpoint expects a refresh token."@,
            ),
            Err(m) => r matches Some(f) && is_refusal(f, UNAUTHORIZED, "invalid_refresh"@, m@),
        },
{
    match verified {
        Ok(true) => None,
        Ok(false) => Some(
            refuse(UNAUTHORIZED, "wrong_token_type", "Endpoint expects a refresh token."),
        ),
        Err(m) => Some(refuse(UNAUTHORIZED, "invalid_refresh", m.as_str())),
    }
}

/// The account a refresh is for, from the lookup of the token's e-mail :
/// 401 `user_revoked` when it no longer exists, 500 when the lookup failed.
pub fn refresh_account<E>(found: Result<Option<UserRecord>, E>) -> (r: Result<UserRecord, Refusal>)
    ensures
        match found {
            Ok(Some(u)) => r == Ok::<UserRecord, Refusal>(u),
            Ok(None) => r matches Err(f) && is_refusal(
                f,
                UNAUTHORIZED,
                "user_revoked"@,
                "Account no longer exists."@,
            ),
            Err(_) => r matches Err(f) && is_refusal(
                f,
                INTERNAL_SERVER_ERROR,
                "internal_error"@,
                backend_message(Backend::Refresh),
            ),
        },
{
    match found {
        Ok(Some(u)) => Ok(u),
        Ok(None) => Err(refuse(UNAUTHORIZED, "user_revoked", "Account no longer exists.")),
        Err(_) => Err(backend_failure(Backend::Refresh)),
    }
}

/// The body answered once both tokens are minted : the access token's
/// expiry when reading it back worked, `0` otherwise.
pub fn auth_response(
    subject: &str,
    display_name: &str,
    access_token: String,
    refresh_token: String,
    access_expiry: Option<u64>,
) -> (r: AuthResponse)
    ensures
        r.user_id@ == subject@,
        r.display_name@ == display_name@,
        r.access_token == access_token,
        r.refresh_token == refresh_token,
        r.access_expires_at == (match access_expiry {
            Some(e) => e,
            None => 0,
        }),
{
    let access_expires_at = match access_expiry {
        Some(e) => e,
        None => 0,
    };
    AuthResponse {
        user_id: subject.to_owned(),
        display_name: display_name.to_owned(),
        access_token,
        refresh_token,
        access_expires_at,
    }
}

/// Whether creating a room is refused, from what the store gave :
/// `Ok(false)` means the id is taken (409 `room_exists`).
pub fn room_creation_refusal<E>(created: &Result<bool, E>) -> (r: Option<Refusal>)
    ensures
        match created {
            Ok(true) => r is None,
            Ok(false) => r matches Some(f) && is_refusal(
                f,
                CONFLICT,
                "room_exists"@,
                "A room with this id already exists."@,
            ),
            Err(_) => r matches Some(f) && is_refusal(
                f,
                INTERNAL_SERVER_ERROR,
                "internal_error"@,
                backend_message(Backend::RoomCreation),
            ),
        },
{
    match created {
        Ok(true) => None,
        Ok(false) => Some(refuse(CONFLICT, "room_exists", "A room with this id already exists.")),
        Err(_) => Some(backend_failure(Backend::RoomCreation)),
    }
}

/// The account to invite, from the lookup of its e-mail : 404
/// `unknown_user` when there is none, 500 when the lookup failed.
pub fn invitee<E>(found: Result<Option<UserRecord>, E>) -> (r: Result<UserRecord, Refusal>)
    ensures
        match found {
            Ok(Some(u)) => r == Ok::<UserRecord, Refusal>(u),
            Ok(None) => r matches Err(f) && is_refusal(
                f,
                NOT_FOUND,
                "unknown_user"@,
                "No account exists with this email."@,
            ),
            Err(_) => r matches Err(f) && is_refusal(
                f,
                INTERNAL_SERVER_ERROR,
                "internal_error"@,
                backend_message(Backend::MemberLookup),
            ),
        },
{
    match found {
        Ok(Some(u)) => Ok(u),
        Ok(None) => Err(refuse(NOT_FOUND, "unknown_user", "No account exists with this email.")),
        Err(_) => Err(backend_failure(Backend::MemberLookup)),
    }
}

} // verus!
