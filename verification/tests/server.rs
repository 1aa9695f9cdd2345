use bse::server::store::pending_migrations;
use bse::storage::{epoch_seconds_to_i64, unix_now_secs};
use bse::ids::UserId;
use bse::server::handlers::{
    auth_response, backend_failure, invalid_token, invitee, login_outcome, refresh_account,
    refresh_token_refusal, registration_outcome, room_creation_refusal, Backend,
    access_subject, created_room_view, pick_room_id, removal_refusal, require_bearer,
    require_owner, requested_role, room_name, room_view, target_user, validate_registration,
    ws_upgrade_refusal, RegisterRequest, TokenCheck,
};
use bse::server::rooms::{ConnectionId, RoomRegistry};
use bse::server::routes::{allowed_origins_env_name, cors_policy, origin_candidates, CorsPolicy};
use bse::server::state::secret_from_pid;
use bse::server::store::{
    insert_user_outcome, role_from_stored, user_row_from_columns, user_rooms_from_rows, RoomRole,
    RoomRow, ServerStoreError, SqlFailure, UserRoomRow, SQLITE_CONSTRAINT_UNIQUE,
};
use bse::server::users::{UserRecord, UserStore};
use bse::server::socket::{socket_step, SocketAction, SocketEvent};

#[test]
fn allowed_origins_env_name_is_documented_constant() {
    assert_eq!(allowed_origins_env_name(), "BSE_ALLOWED_ORIGINS");
}

#[test]
fn origin_candidates_split_trim_and_drop_blanks() {
    assert_eq!(
        origin_candidates(" https://a.example , ,https://b.example,"),
        vec!["https://a.example".to_string(), "https://b.example".to_string()]
    );
    assert!(origin_candidates("").is_empty());
    assert!(origin_candidates(" , ,").is_empty());
    assert_eq!(origin_candidates("x"), vec!["x".to_string()]);
}

#[test]
fn role_text_roundtrip() {
    assert_eq!(RoomRole::Owner.as_str(), "owner");
    assert_eq!(RoomRole::Member.as_str(), "member");
    for r in [RoomRole::Owner, RoomRole::Member] {
        assert_eq!(RoomRole::parse(r.as_str()), Some(r));
    }
    assert_eq!(RoomRole::parse("Owner"), None);
    assert_eq!(RoomRole::parse(""), None);
    assert_eq!(role_from_stored(Some("member".to_string())), Some(RoomRole::Member));
    assert_eq!(role_from_stored(Some("admin".to_string())), None);
    assert_eq!(role_from_stored(None), None);
}

#[test]
fn store_error_messages() {
    assert_eq!(ServerStoreError::Io("x".into()).to_string(), "I/O error : x");
    assert_eq!(ServerStoreError::Database("locked".into()).to_string(), "database error : locked");
    assert_eq!(
        ServerStoreError::Corruption("bad".into()).to_string(),
        "invalid stored data : bad"
    );
}

#[test]
fn insert_user_duplicate_email_is_not_an_error() {
    assert!(insert_user_outcome(Ok(1)).unwrap());
    let dup = SqlFailure { extended_code: Some(SQLITE_CONSTRAINT_UNIQUE), message: "UNIQUE".into() };
    assert!(!insert_user_outcome(Err(dup)).unwrap());
    let other = SqlFailure { extended_code: Some(5), message: "busy".into() };
    match insert_user_outcome(Err(other)) {
        Err(ServerStoreError::Database(m)) => assert_eq!(m, "busy"),
        _ => panic!("expected a database error"),
    }
}

#[test]
fn user_row_parses_stored_id() {
    let id = UserId(7);
    let row = user_row_from_columns(id.to_string(), "a@b.c".into(), "A".into(), "h".into()).unwrap();
    assert_eq!(row.id, id);
    assert_eq!(row.email, "a@b.c");
    assert!(matches!(
        user_row_from_columns("nope".into(), "a@b.c".into(), "A".into(), "h".into()),
        Err(ServerStoreError::Corruption(_))
    ));
}

#[test]
fn membership_rows_convert_in_order() {
    let alice = UserId(11);
    let rows = vec![
        ("room-2".to_string(), "Room 2".to_string(), alice.to_string(), 5, "member".to_string()),
        ("room-1".to_string(), "Room 1".to_string(), alice.to_string(), 3, "owner".to_string()),
    ];
    let out = user_rooms_from_rows(rows).unwrap();
    assert_eq!(out.len(), 2);
    assert_eq!(out[0].room.id, "room-2");
    assert_eq!(out[0].role, RoomRole::Member);
    assert_eq!(out[1].room.created_by, alice);
    assert_eq!(out[1].room.created_at, 3);
    assert_eq!(out[1].role, RoomRole::Owner);
}

#[test]
fn membership_rows_report_first_corruption() {
    let alice = UserId(11);
    let rows = vec![
        ("r1".to_string(), "R1".to_string(), alice.to_string(), 1, "owner".to_string()),
        ("r2".to_string(), "R2".to_string(), alice.to_string(), 2, "admin".to_string()),
        ("r3".to_string(), "R3".to_string(), "bad".to_string(), 3, "owner".to_string()),
    ];
    match user_rooms_from_rows(rows) {
        Err(ServerStoreError::Corruption(m)) => assert_eq!(m, "unknown role `admin`"),
        _ => panic!("expected corruption"),
    }
}

#[test]
fn registry_join_allocates_increasing_ids() {
    let mut reg: RoomRegistry<u32> = RoomRegistry::new();
    assert_eq!(reg.peer_count("lobby"), 0);
    let a = reg.join("lobby", 10);
    let b = reg.join("lobby", 20);
    let c = reg.join("other", 30);
    assert_eq!(a, ConnectionId(0));
    assert_eq!(b, ConnectionId(1));
    assert_eq!(c, ConnectionId(0));
    assert_eq!(reg.peer_count("lobby"), 2);
    assert_eq!(reg.peer_count("other"), 1);
    assert!(reg.can_join("lobby"));
}

#[test]
fn registry_broadcast_skips_sender() {
    let mut reg: RoomRegistry<u32> = RoomRegistry::new();
    let a = reg.join("lobby", 10);
    let _b = reg.join("lobby", 20);
    let _c = reg.join("lobby", 30);
    let _d = reg.join("elsewhere", 40);
    let to: Vec<u32> = reg.recipients("lobby", a).into_iter().copied().collect();
    assert_eq!(to, vec![20, 30]);
    assert!(reg.recipients("nowhere", a).is_empty());
}

#[test]
fn registry_leave_keeps_room_and_counter() {
    let mut reg: RoomRegistry<u32> = RoomRegistry::new();
    let a = reg.join("lobby", 10);
    reg.leave("lobby", a);
    assert_eq!(reg.peer_count("lobby"), 0);
    reg.leave("lobby", a);
    reg.leave("nowhere", a);
    // The counter is kept : ids are never reused.
    let b = reg.join("lobby", 11);
    assert_eq!(b, ConnectionId(1));
    assert_eq!(reg.peer_count("lobby"), 1);
}

#[test]
fn user_store_register_and_lookup_case_insensitive() {
    let mut users = UserStore::new();
    let alice = users.register("Alice@Example.com", "Alice", "phc$hash".into()).expect("fresh");
    // A time-ordered (v7) id was drawn.
    assert_eq!(alice.0 >> 76 & 0xf, 7);
    let rec = users.find_by_email("alice@example.com").expect("found");
    assert_eq!(rec.id, alice);
    assert_eq!(rec.email, "Alice@Example.com");
    assert_eq!(rec.display_name, "Alice");
    assert_eq!(rec.password_hash, "phc$hash");
    assert!(users.is_registered("ALICE@EXAMPLE.COM"));
    assert_eq!(users.register("alice@example.com", "A2", "h2".into()), None);
    assert!(users.find_by_email("nobody@example.com").is_none());
}

#[test]
fn user_store_seed_is_idempotent() {
    let mut users = UserStore::new();
    let first = users.seed_if_empty("demo@bse.app", "Demo", "h".into());
    let again = users.seed_if_empty("Demo@BSE.app", "Demo", "other".into());
    assert_eq!(again, first);
    assert_eq!(users.find_by_email("demo@bse.app").unwrap().id, first);
    assert_eq!(users.find_by_email("demo@bse.app").unwrap().password_hash, "h");
}

#[test]
fn registration_validation_rules() {
    let req = |email: &str, password: &str, name: &str| RegisterRequest {
        email: email.into(),
        password: password.into(),
        display_name: name.into(),
    };
    assert!(validate_registration(&req("a@b.c", "12345678", "A")).is_none());
    let r = validate_registration(&req("a@b.c", "1234567", "A")).unwrap();
    assert_eq!((r.status, r.error.code), (400, "weak_password"));
    assert_eq!(r.error.message, "Password must be at least 8 characters.");
    let r = validate_registration(&req("  ", "12345678", "A")).unwrap();
    assert_eq!(r.error.code, "invalid_email");
    let r = validate_registration(&req("abc", "12345678", "A")).unwrap();
    assert_eq!(r.error.code, "invalid_email");
    let r = validate_registration(&req("a@b.c", "12345678", " \t")).unwrap();
    assert_eq!(r.error.code, "missing_display_name");
    assert_eq!(r.error.message, "Display name cannot be empty.");
    // Byte length counts : four 2-byte characters are 8 bytes.
    assert!(validate_registration(&req("a@b.c", "éééé", "A")).is_none());
}

#[test]
fn bearer_token_extraction() {
    assert_eq!(require_bearer(Some("Bearer abc.def")).unwrap(), "abc.def");
    assert_eq!(require_bearer(Some("Bearer ")).unwrap(), "");
    let r = require_bearer(Some("Basic xyz")).unwrap_err();
    assert_eq!((r.status, r.error.code), (401, "missing_token"));
    assert!(require_bearer(None).is_err());
}

#[test]
fn access_subject_checks() {
    let id = UserId(99);
    assert_eq!(access_subject(true, &id.to_string()).unwrap(), id);
    let r = access_subject(false, &id.to_string()).unwrap_err();
    assert_eq!(r.error.code, "wrong_token_type");
    let r = access_subject(true, "bob").unwrap_err();
    assert_eq!(r.error.code, "invalid_subject");
    assert!(r.error.message.starts_with("token subject is not a user id : "));
}

#[test]
fn room_creation_decisions() {
    assert_eq!(room_name("  Brainstorm \n").unwrap(), "Brainstorm");
    let r = room_name("   ").unwrap_err();
    assert_eq!((r.status, r.error.code), (400, "invalid_name"));
    assert_eq!(pick_room_id(Some("brain-1".into()), "gen".into()), "brain-1");
    assert_eq!(pick_room_id(Some("  ".into()), "gen".into()), "gen");
    assert_eq!(pick_room_id(None, "gen".into()), "gen");
    let v = created_room_view("brain-1".into(), "Brainstorm", UserId(3));
    assert_eq!(v.role, "owner");
    assert_eq!(v.created_at, 0);
    assert_eq!(v.created_by, UserId(3).to_string());
}

#[test]
fn member_management_decisions() {
    assert!(require_owner(Some(RoomRole::Owner), false).is_none());
    let r = require_owner(Some(RoomRole::Member), false).unwrap();
    assert_eq!((r.status, r.error.code), (403, "forbidden"));
    assert_eq!(r.error.message, "Only the room owner can invite members.");
    let r = require_owner(None, true).unwrap();
    assert_eq!(r.error.message, "Only the room owner can kick members.");
    assert_eq!(requested_role(Some("owner")), RoomRole::Owner);
    assert_eq!(requested_role(Some("boss")), RoomRole::Member);
    assert_eq!(requested_role(None), RoomRole::Member);
    assert_eq!(target_user(&UserId(4).to_string()).unwrap(), UserId(4));
    assert_eq!(target_user("x").unwrap_err().error.code, "invalid_user_id");
    assert!(removal_refusal(UserId(1), UserId(2)).is_none());
    let r = removal_refusal(UserId(1), UserId(1)).unwrap();
    assert_eq!((r.status, r.error.code), (400, "cannot_remove_self"));
}

#[test]
fn room_list_view() {
    let row = UserRoomRow {
        room: RoomRow { id: "r".into(), name: "R".into(), created_by: UserId(8), created_at: 12 },
        role: RoomRole::Member,
    };
    let v = room_view(row);
    assert_eq!(v.id, "r");
    assert_eq!(v.name, "R");
    assert_eq!(v.role, "member");
    assert_eq!(v.created_at, 12);
    assert_eq!(v.created_by, UserId(8).to_string());
}

#[test]
fn ws_upgrade_decisions() {
    assert_eq!(ws_upgrade_refusal(false, false, TokenCheck::Invalid), None);
    assert_eq!(ws_upgrade_refusal(true, false, TokenCheck::Access), Some("missing token"));
    assert_eq!(ws_upgrade_refusal(true, true, TokenCheck::Access), None);
    assert_eq!(ws_upgrade_refusal(true, true, TokenCheck::OtherType), Some("wrong token type"));
    assert_eq!(ws_upgrade_refusal(true, true, TokenCheck::Invalid), Some("invalid token"));
}

#[test]
fn fallback_secret_bytes() {
    let s = secret_from_pid(1);
    assert_eq!(s.len(), 64);
    // 2654435761 = 0x9E3779B1 : low byte 0xB1.
    assert_eq!(s[0], 0xB1);
    assert_eq!(s[1], 0xB2);
    let t = secret_from_pid(1000);
    assert_eq!(t[0], ((1000u64 * 2_654_435_761) & 0xFF) as u8);
}

#[test]
fn epoch_seconds_saturate_and_default_to_zero() {
    assert_eq!(epoch_seconds_to_i64(None), 0);
    assert_eq!(epoch_seconds_to_i64(Some(42)), 42);
    assert_eq!(epoch_seconds_to_i64(Some(u64::MAX)), i64::MAX);
    assert_eq!(epoch_seconds_to_i64(Some(i64::MAX as u64)), i64::MAX);
    // The clock of the machine running the tests reads after 2020.
    assert!(unix_now_secs() > 1_577_836_800);
}

fn record(id: u128, email: &str) -> UserRecord {
    UserRecord {
        id: UserId(id),
        email: email.into(),
        display_name: "Name".into(),
        password_hash: "hash".into(),
    }
}

#[test]
fn login_outcomes() {
    let ok = login_outcome::<String>(Ok(Some(record(3, "a@b.c")))).unwrap();
    assert_eq!(ok.id, UserId(3));
    let r = login_outcome::<String>(Ok(None)).unwrap_err();
    assert_eq!((r.status, r.error.code), (401, "invalid_credentials"));
    assert_eq!(r.error.message, "Email or password is incorrect.");
    let r = login_outcome(Err("argon2 down".to_string())).unwrap_err();
    assert_eq!((r.status, r.error.code), (500, "internal_error"));
    assert_eq!(r.error.message, "Authentication backend failed.");
}

#[test]
fn registration_outcomes() {
    assert_eq!(registration_outcome::<()>(Ok(Some(UserId(9)))).unwrap(), UserId(9));
    let r = registration_outcome::<()>(Ok(None)).unwrap_err();
    assert_eq!((r.status, r.error.code), (409, "email_taken"));
    let r = registration_outcome(Err(())).unwrap_err();
    assert_eq!(r.error.message, "Registration backend failed.");
}

#[test]
fn refresh_outcomes() {
    assert!(refresh_token_refusal(Ok(true)).is_none());
    let r = refresh_token_refusal(Ok(false)).unwrap();
    assert_eq!((r.status, r.error.code), (401, "wrong_token_type"));
    assert_eq!(r.error.message, "Endpoint expects a refresh token.");
    let r = refresh_token_refusal(Err("ExpiredSignature".into())).unwrap();
    assert_eq!((r.status, r.error.code, r.error.message.as_str()), (401, "invalid_refresh", "ExpiredSignature"));
    assert_eq!(refresh_account::<()>(Ok(Some(record(4, "x@y.z")))).unwrap().id, UserId(4));
    let r = refresh_account::<()>(Ok(None)).unwrap_err();
    assert_eq!((r.status, r.error.code), (401, "user_revoked"));
    let r = refresh_account(Err(())).unwrap_err();
    assert_eq!((r.status, r.error.message.as_str()), (500, "Refresh backend failed."));
}

#[test]
fn auth_response_expiry_defaults_to_zero() {
    let a = auth_response("sub", "Name", "acc".into(), "ref".into(), Some(1234));
    assert_eq!((a.user_id.as_str(), a.display_name.as_str()), ("sub", "Name"));
    assert_eq!((a.access_token.as_str(), a.refresh_token.as_str()), ("acc", "ref"));
    assert_eq!(a.access_expires_at, 1234);
    assert_eq!(auth_response("s", "n", "a".into(), "r".into(), None).access_expires_at, 0);
}

#[test]
fn room_and_member_outcomes() {
    assert!(room_creation_refusal::<()>(&Ok(true)).is_none());
    let r = room_creation_refusal::<()>(&Ok(false)).unwrap();
    assert_eq!((r.status, r.error.code), (409, "room_exists"));
    let r = room_creation_refusal(&Err(())).unwrap();
    assert_eq!(r.error.message, "Room creation failed.");
    let r = invitee::<()>(Ok(None)).unwrap_err();
    assert_eq!((r.status, r.error.code), (404, "unknown_user"));
    assert_eq!(r.error.message, "No account exists with this email.");
    let r = invitee(Err(())).unwrap_err();
    assert_eq!(r.error.message, "Member lookup failed.");
    let r = invalid_token("InvalidSignature");
    assert_eq!((r.status, r.error.code, r.error.message.as_str()), (401, "invalid_token", "InvalidSignature"));
    let r = backend_failure(Backend::MemberRemoval);
    assert_eq!((r.status, r.error.code, r.error.message.as_str()), (500, "internal_error", "Removing member failed."));
    assert_eq!(backend_failure(Backend::RoomListing).error.message, "Room listing failed.");
    assert_eq!(backend_failure(Backend::TokenIssue).error.message, "Token issuance failed.");
    assert_eq!(backend_failure(Backend::MemberAdd).error.message, "Adding member failed.");
}

#[test]
fn socket_loop_decisions() {
    assert_eq!(socket_step(SocketEvent::Data), SocketAction::Broadcast);
    assert_eq!(socket_step(SocketEvent::Outbound), SocketAction::Deliver);
    assert_eq!(socket_step(SocketEvent::Control), SocketAction::Ignore);
    for ev in [
        SocketEvent::PeerClosed,
        SocketEvent::ReceiveFailed,
        SocketEvent::CloseFrame,
        SocketEvent::InboxClosed,
        SocketEvent::SendFailed,
    ] {
        assert_eq!(socket_step(ev), SocketAction::Leave);
    }
}

fn origins(p: CorsPolicy) -> Option<Vec<String>> {
    match p {
        CorsPolicy::Permissive => None,
        CorsPolicy::Origins(list) => Some(list),
    }
}

#[test]
fn cors_policy_from_configured_origins() {
    assert_eq!(origins(cors_policy(None)), None);
    assert_eq!(origins(cors_policy(Some(""))), None);
    assert_eq!(origins(cors_policy(Some(" ,  , "))), None);
    assert_eq!(
        origins(cors_policy(Some("https://a.example, https://b.example"))),
        Some(vec!["https://a.example".to_string(), "https://b.example".to_string()])
    );
    // A DEL or a control character makes an origin malformed : it is skipped.
    assert_eq!(
        origins(cors_policy(Some("https://a.example,bad\u{7f}origin"))),
        Some(vec!["https://a.example".to_string()])
    );
    assert_eq!(origins(cors_policy(Some("\u{1}x"))), None);
    // An inner tab and non-ASCII text are allowed.
    assert_eq!(
        origins(cors_policy(Some("a\tb, https://café.example"))),
        Some(vec!["a\tb".to_string(), "https://café.example".to_string()])
    );
}

#[test]
fn security_headers_are_static() {
    use_security_headers();
}

fn use_security_headers() {
    let h = bse::server::routes::security_headers();
    assert_eq!(
        h,
        vec![
            ("x-content-type-options", "nosniff"),
            ("x-frame-options", "DENY"),
            ("referrer-policy", "no-referrer"),
            ("permissions-policy", "geolocation=(), camera=(), microphone=()"),
        ]
    );
    assert_eq!(bse::server::routes::JSON_BODY_LIMIT, 1024 * 1024);
    assert_eq!(
        (bse::server::routes::AUTH_REPLENISH_SECS, bse::server::routes::AUTH_RATE_BURST),
        (2, 10)
    );
}

#[test]
fn migrations_pending_by_version() {
    let all = pending_migrations(0);
    assert_eq!(all.iter().map(|m| m.0).collect::<Vec<_>>(), vec![1, 2]);
    assert!(all[0].1.starts_with("CREATE TABLE users (id            TEXT PRIMARY KEY, "));
    assert!(all[1].1.ends_with("CREATE INDEX idx_room_members_user ON room_members(user_id);"));
    assert_eq!(pending_migrations(1).iter().map(|m| m.0).collect::<Vec<_>>(), vec![2]);
    // Migrating twice applies nothing the second time.
    assert!(pending_migrations(2).is_empty());
    assert!(pending_migrations(7).is_empty());
}

#[test]
fn email_keys_are_lowercase() {
    assert_eq!(bse::server::users::email_key_of("Alice@Example.COM"), "alice@example.com");
}

#[test]
fn credentials_outcome_follows_the_password_check() {
    use_credentials_outcome();
}

fn use_credentials_outcome() {
    let rec = record(5, "a@b.c");
    assert_eq!(bse::server::users::credentials_outcome::<()>(rec.duplicate(), Ok(true)).unwrap().unwrap().id, UserId(5));
    assert!(bse::server::users::credentials_outcome::<()>(rec.duplicate(), Ok(false)).unwrap().is_none());
    assert_eq!(bse::server::users::credentials_outcome(rec, Err("bad phc")).unwrap_err(), "bad phc");
}
