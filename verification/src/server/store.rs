//! Rows of the server database and the decisions taken on what a query
//! returned : turning raw columns into typed rows, recognising a
//! duplicate e-mail, and the room roles.

use vstd::prelude::*;
use crate::ids::{UserId, uuid_parse, uuid_text, is_uuid_text};
use crate::text::str_equals;

verus! {

/// Roles a user can hold inside a room.
#[derive(Copy, Clone, Debug, PartialEq, Eq, Structural)]
pub enum RoomRole {
    /// Created the room ; can manage members.
    Owner,
    /// Read + write access to the document, no member management.
    Member,
}

/// The stored text of a role.
pub open spec fn role_text(role: RoomRole) -> Seq<char> {
    match role {
        RoomRole::Owner => "owner"@,
        RoomRole::Member => "member"@,
    }
}

/// The role a stored text denotes, if any.
pub open spec fn role_from_text(s: Seq<char>) -> Option<RoomRole> {
    if s == "owner"@ {
        Some(RoomRole::Owner)
    } else if s == "member"@ {
        Some(RoomRole::Member)
    } else {
        None
    }
}

impl RoomRole {
    /// Render the role as the wire-format string stored in the database.
    pub fn as_str(self) -> (s: &'static str)
        ensures
            s@ == role_text(self),
    {
        match self {
            RoomRole::Owner => "owner",
            RoomRole::Member => "member",
        }
    }

    /// Parse the wire-format string. Returns `None` for unknown values.
    pub fn parse(s: &str) -> (r: Option<RoomRole>)
        ensures
            r == role_from_text(s@),
    {
        if str_equals(s, "owner") {
            Some(RoomRole::Owner)
        } else if str_equals(s, "member") {
            Some(RoomRole::Member)
        } else {
            None
        }
    }
}

/// Every role parses back from its stored text.
pub proof fn lemma_role_text_roundtrip(role: RoomRole)
    ensures
        role_from_text(role_text(role)) == Some(role),
{
    reveal_strlit("owner");
    reveal_strlit("member");
    assert("owner"@ != "member"@) by {
        assert("owner"@.len() != "member"@.len());
    }
}

/// A row in the `rooms` table.
#[derive(Clone, Debug)]
pub struct RoomRow {
    /// Room id (slug / UUID — the server does not enforce a format).
    pub id: String,
    /// Display name shown in the room list.
    pub name: String,
    /// User that created the room.
    pub created_by: UserId,
    /// Unix timestamp (seconds) of creation.
    pub created_at: i64,
}

/// One entry in a user's room list, joined with the user's role.
#[derive(Clone, Debug)]
pub struct UserRoomRow {
    /// The room itself.
    pub room: RoomRow,
    /// Role the user holds in the room.
    pub role: RoomRole,
}

/// Errors produced by the server store.
#[derive(Debug)]
pub enum ServerStoreError {
    /// Filesystem I/O failed.
    Io(String),
    /// Underlying database operation failed.
    Database(String),
    /// A row referenced an id that could not be parsed, or held an unknown role.
    Corruption(String),
}

/// The message of a store error.
pub open spec fn store_error_text(e: ServerStoreError) -> Seq<char> {
    match e {
        ServerStoreError::Io(m) => "I/O error : "@ + m@,
        ServerStoreError::Database(m) => "database error : "@ + m@,
        ServerStoreError::Corruption(m) => "invalid stored data : "@ + m@,
    }
}

impl ServerStoreError {
    /// Human-readable message, e.g. `"database error : locked"`.
    pub fn to_string(&self) -> (s: String)
        ensures
            s@ == store_error_text(*self),
    {
        match self {
            ServerStoreError::Io(m) => "I/O error : ".to_owned().concat(m.as_str()),
            ServerStoreError::Database(m) => "database error : ".to_owned().concat(m.as_str()),
            ServerStoreError::Corruption(m) => "invalid stored data : ".to_owned().concat(m.as_str()),
        }
    }
}

/// A user record as stored in the `users` table.
#[derive(Clone, Debug)]
pub struct UserRow {
    /// Stable identifier.
    pub id: UserId,
    /// Login email.
    pub email: String,
    /// Display name shown to other peers.
    pub display_name: String,
    /// Argon2id PHC hash of the password.
    pub password_hash: String,
}

/// Build a user row from the columns `id, email, display_name,
/// password_hash` read from the database. A stored id that is not a UUID
/// is reported as corruption, with the parser's message.
pub fn user_row_from_columns(
    id: String,
    email: String,
    display_name: String,
    password_hash: String,
) -> (r: Result<UserRow, ServerStoreError>)
    ensures
        match uuid_parse(id@) {
            Ok(v) => r matches Ok(row) && row.id == UserId(v) && row.email == email
                && row.display_name == display_name && row.password_hash == password_hash,
            Err(m) => r matches Err(ServerStoreError::Corruption(msg)) && msg@ == m,
        },
{
    match UserId::parse_str(id.as_str()) {
        Ok(uid) => Ok(UserRow { id: uid, email, display_name, password_hash }),
        Err(m) => Err(ServerStoreError::Corruption(m)),
    }
}

/// A room membership as read from the database : room id, name, creator
/// id text, creation time and role text.
pub type MembershipColumns = (String, String, String, i64, String);

/// Why a membership row cannot be read back, if it cannot.
pub open spec fn membership_error(row: MembershipColumns) -> Option<Seq<char>> {
    match uuid_parse(row.2@) {
        Err(m) => Some(m),
        Ok(_) => if role_from_text(row.4@) is None {
            Some("unknown role `"@ + row.4@ + "`"@)
        } else {
            None
        },
    }
}

/// Row `k` is the first unreadable row of `rows`, and `e` reports it.
pub open spec fn first_unreadable(rows: Seq<MembershipColumns>, k: int, e: ServerStoreError) -> bool {
    &&& 0 <= k < rows.len()
    &&& forall|j: int| 0 <= j < k ==> membership_error(#[trigger] rows[j]) is None
    &&& membership_error(rows[k]) matches Some(m)
    &&& e matches ServerStoreError::Corruption(msg)
    &&& msg@ == m
}

/// Row `k` is the first unreadable row of `rows`, and `r` reports it.
pub open spec fn unreadable_at(
    rows: Seq<MembershipColumns>,
    k: int,
    r: Result<Vec<UserRoomRow>, ServerStoreError>,
) -> bool {
    r matches Err(e) && first_unreadable(rows, k, e)
}

/// `out` is the typed form of the readable membership row `row`.
pub open spec fn membership_matches(row: MembershipColumns, out: UserRoomRow) -> bool {
    &&& out.room.id == row.0
    &&& out.room.name == row.1
    &&& uuid_parse(row.2@) == Ok::<u128, Seq<char>>(out.room.created_by.0)
    &&& out.room.created_at == row.3
    &&& role_from_text(row.4@) == Some(out.role)
}

/// Turn the rows of a user's room list into typed rows, in order. The
/// first row whose creator id is not a UUID, or whose role is unknown,
/// stops the conversion with a corruption error naming the problem.
pub fn user_rooms_from_rows(rows: Vec<MembershipColumns>) -> (r: Result<
    Vec<UserRoomRow>,
    ServerStoreError,
>)
    ensures
        r is Ok ==> {
            &&& r->Ok_0@.len() == rows@.len()
            &&& forall|j: int| 0 <= j < rows@.len() ==> membership_error(#[trigger] rows@[j]) is None
            &&& forall|j: int|
                0 <= j < rows@.len() ==> membership_matches(rows@[j], #[trigger] r->Ok_0@[j])
        },
        r is Err ==> exists|k: int| #[trigger] unreadable_at(rows@, k, r),
{
    let ghost input = rows@;
    let mut rest = rows;
    let mut out: Vec<UserRoomRow> = Vec::new();
    while rest.len() > 0
        invariant
            input == rows@,
            out@.len() + rest@.len() == input.len(),
            rest@ == input.subrange(out@.len() as int, input.len() as int),
            forall|j: int| 0 <= j < out@.len() ==> membership_error(#[trigger] input[j]) is None,
            forall|j: int| 0 <= j < out@.len() ==> membership_matches(input[j], #[trigger] out@[j]),
        decreases rest@.len(),
    {
        let k = out.len();
        let (id, name, created_by, created_at, role) = rest.remove(0);
        assert((id, name, created_by, created_at, role) == input[k as int]);
        let creator = match UserId::parse_str(created_by.as_str()) {
            Ok(u) => u,
            Err(m) => {
                assert(membership_error(input[k as int]) == Some(m@));
                assert(forall|j: int| 0 <= j < k ==> membership_error(#[trigger] input[j]) is None);
                let e = ServerStoreError::Corruption(m);
                assert(first_unreadable(input, k as int, e));
                let res = Err(e);
                assert(unreadable_at(rows@, k as int, res));
                return res;
            },
        };
        let parsed_role = match RoomRole::parse(role.as_str()) {
            Some(r) => r,
            None => {
                let msg = "unknown role `".to_owned().concat(role.as_str()).concat("`");
                assert(membership_error(input[k as int]) == Some(msg@));
                assert(forall|j: int| 0 <= j < k ==> membership_error(#[trigger] input[j]) is None);
                let e = ServerStoreError::Corruption(msg);
                let res = Err(e);
                assert(unreadable_at(rows@, k as int, res));
                return res;
            },
        };
        out.push(
            UserRoomRow {
                room: RoomRow { id, name, created_by: creator, created_at },
                role: parsed_role,
            },
        );
    }
    Ok(out)
}

/// The role read back from a `role` column, if there was a row and it
/// holds a known role.
pub fn role_from_stored(row: Option<String>) -> (r: Option<RoomRole>)
    ensures
        r == match row {
            Some(s) => role_from_text(s@),
            None => None,
        },
{
    match row {
        Some(s) => RoomRole::parse(s.as_str()),
        None => None,
    }
}

/// Extended result code of a `UNIQUE` constraint violation in SQLite.
pub const SQLITE_CONSTRAINT_UNIQUE: i32 = 2067;

/// A failed database statement, as plain values : SQLite's extended
/// result code when the failure came from SQLite, and the message.
#[derive(Clone, Debug)]
pub struct SqlFailure {
    /// Extended result code, when SQLite reported one.
    pub extended_code: Option<i32>,
    /// Human-readable message of the failure.
    pub message: String,
}

/// Outcome of inserting a user : `Ok(true)` when the row was written,
/// `Ok(false)` when the e-mail was already taken (a `UNIQUE` violation),
/// a database error otherwise.
pub fn insert_user_outcome(res: Result<usize, SqlFailure>) -> (r: Result<bool, ServerStoreError>)
    ensures
        match res {
            Ok(_) => r matches Ok(b) && b,
            Err(f) => if f.extended_code == Some(SQLITE_CONSTRAINT_UNIQUE) {
                r matches Ok(b) && !b
            } else {
                r matches Err(ServerStoreError::Database(m)) && m == f.message
            },
        },
{
    match res {
        Ok(_) => Ok(true),
        Err(f) => {
            if f.extended_code == Some(SQLITE_CONSTRAINT_UNIQUE) {
                Ok(false)
            } else {
                Err(ServerStoreError::Database(f.message))
            }
        },
    }
}

/// The DDL of the first schema version : the accounts and the room
/// snapshots.
pub open spec fn accounts_schema_sql() -> Seq<char> {
    "CREATE TABLE users (\
        id            TEXT PRIMARY KEY, \
        email         TEXT NOT NULL, \
        email_lc      TEXT NOT NULL UNIQUE, \
        display_name  TEXT NOT NULL, \
        password_hash TEXT NOT NULL, \
        created_at    INTEGER NOT NULL\
     ); \
     CREATE TABLE room_snapshots (\
        room_id     TEXT PRIMARY KEY, \
        bytes       BLOB NOT NULL, \
        updated_at  INTEGER NOT NULL\
     );"@
}

/// The DDL of the second schema version : the rooms and their members.
pub open spec fn rooms_schema_sql() -> Seq<char> {
    "CREATE TABLE rooms (\
        id          TEXT PRIMARY KEY, \
        name        TEXT NOT NULL, \
        created_by  TEXT NOT NULL, \
        created_at  INTEGER NOT NULL\
     ); \
     CREATE TABLE room_members (\
        room_id    TEXT NOT NULL, \
        user_id    TEXT NOT NULL, \
        role       TEXT NOT NULL, \
        joined_at  INTEGER NOT NULL, \
        PRIMARY KEY (room_id, user_id)\
     ); \
     CREATE INDEX idx_room_members_user ON room_members(user_id);"@
}

/// The schema migrations, as `(version, DDL)` pairs in the order they
/// are applied.
pub open spec fn schema_migrations() -> Seq<(i64, Seq<char>)> {
    seq![(1i64, accounts_schema_sql()), (2i64, rooms_schema_sql())]
}

/// The migrations still to apply once the schema is at version
/// `applied` : those of a higher version, in order.
pub open spec fn pending_after(applied: i64) -> Seq<(i64, Seq<char>)> {
    schema_migrations().filter(|m: (i64, Seq<char>)| m.0 > applied)
}

/// The schema version recorded once the migrations pending after
/// `applied` have been applied : the last of them, or `applied` itself
/// when none was pending.
pub open spec fn version_after_migrating(applied: i64) -> i64 {
    let p = pending_after(applied);
    if p.len() == 0 {
        applied
    } else {
        p.last().0
    }
}

/// The migrations to apply on a schema at version `applied` (the highest
/// version recorded so far, `0` for a fresh database), in order.
pub fn pending_migrations(applied: i64) -> (out: Vec<(i64, &'static str)>)
    ensures
        out@.len() == pending_after(applied).len(),
        forall|j: int|
            0 <= j < out@.len() ==> (#[trigger] out@[j]).0 == pending_after(applied)[j].0
                && out@[j].1@ == pending_after(applied)[j].1,
{
    proof {
        reveal_with_fuel(Seq::filter, 3);
        assert(schema_migrations().drop_last() =~= seq![(1i64, accounts_schema_sql())]);
        assert(seq![(1i64, accounts_schema_sql())].drop_last() =~= Seq::<(i64, Seq<char>)>::empty());
    }
    let mut out: Vec<(i64, &'static str)> = Vec::new();
    if 1 > applied {
        out.push((1, "CREATE TABLE users (\
            id            TEXT PRIMARY KEY, \
            email         TEXT NOT NULL, \
            email_lc      TEXT NOT NULL UNIQUE, \
            display_name  TEXT NOT NULL, \
            password_hash TEXT NOT NULL, \
            created_at    INTEGER NOT NULL\
         ); \
         CREATE TABLE room_snapshots (\
            room_id     TEXT PRIMARY KEY, \
            bytes       BLOB NOT NULL, \
            updated_at  INTEGER NOT NULL\
         );"));
    }
    if 2 > applied {
        out.push((2, "CREATE TABLE rooms (\
            id          TEXT PRIMARY KEY, \
            name        TEXT NOT NULL, \
            created_by  TEXT NOT NULL, \
            created_at  INTEGER NOT NULL\
         ); \
         CREATE TABLE room_members (\
            room_id    TEXT NOT NULL, \
            user_id    TEXT NOT NULL, \
            role       TEXT NOT NULL, \
            joined_at  INTEGER NOT NULL, \
            PRIMARY KEY (room_id, user_id)\
         ); \
         CREATE INDEX idx_room_members_user ON room_members(user_id);"));
    }
    out
}

/// Migrating is idempotent : once the pending migrations of a schema
/// have been applied and the new version recorded, nothing is pending.
pub proof fn lemma_migrate_idempotent(applied: i64)
    ensures
        pending_after(version_after_migrating(applied)).len() == 0,
{
    reveal_with_fuel(Seq::filter, 3);
    assert(schema_migrations().drop_last() =~= seq![(1i64, accounts_schema_sql())]);
    assert(seq![(1i64, accounts_schema_sql())].drop_last() =~= Seq::<(i64, Seq<char>)>::empty());
    let v = version_after_migrating(applied);
    assert(v >= 2);
}

} // verus!
