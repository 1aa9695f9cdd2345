//! Strongly-typed identifiers.
//!
//! Each entity of BSE has its own newtype over the 128-bit value of a
//! UUID, so that a `ProjectId` can never be passed where an `ElementId`
//! is expected. Text forms are the canonical hyphenated lower-case UUID
//! strings.

use vstd::prelude::*;
use uuid::Uuid;

verus! {

#[verifier::external_type_specification]
#[verifier::external_body]
pub struct ExUuid(Uuid);

/// Lower-case hexadecimal digit of `d` (0..16).
pub open spec fn hex_lower(d: int) -> char {
    if d == 0 { '0' } else if d == 1 { '1' } else if d == 2 { '2' } else if d == 3 { '3' }
    else if d == 4 { '4' } else if d == 5 { '5' } else if d == 6 { '6' } else if d == 7 { '7' }
    else if d == 8 { '8' } else if d == 9 { '9' } else if d == 10 { 'a' } else if d == 11 { 'b' }
    else if d == 12 { 'c' } else if d == 13 { 'd' } else if d == 14 { 'e' } else { 'f' }
}

/// The `k`-th 4-bit digit of `v`, most significant first (`k` in 0..32).
pub open spec fn nibble(v: u128, k: int) -> int {
    ((v >> ((124 - 4 * k) as u128)) & 0xfu128) as int
}

/// Positions of the four hyphens of the hyphenated UUID form.
pub open spec fn hyphen_at(i: int) -> bool {
    i == 8 || i == 13 || i == 18 || i == 23
}

/// Index of the hex digit shown at text position `i` (hyphens skipped).
pub open spec fn digit_index(i: int) -> int {
    i - (if i > 23 {
        4int
    } else if i > 18 {
        3int
    } else if i > 13 {
        2int
    } else if i > 8 {
        1int
    } else {
        0int
    })
}

/// The hyphenated lower-case text of a UUID value,
/// `xxxxxxxx-xxxx-xxxx-xxxx-xxxxxxxxxxxx`.
pub open spec fn uuid_text(v: u128) -> Seq<char> {
    Seq::new(36, |i: int| if hyphen_at(i) { '-' } else { hex_lower(nibble(v, digit_index(i))) })
}

/// `s` is the hyphenated text of some UUID value.
pub open spec fn is_uuid_text(s: Seq<char>) -> bool {
    exists|v: u128| uuid_text(v) == s
}

/// The outcome of `Uuid::parse_str` on a text : the UUID value, or the
/// message of the parse error.
pub uninterp spec fn uuid_parse(s: Seq<char>) -> Result<u128, Seq<char>>;

/// The version and variant bits of a random (v4) UUID.
pub open spec fn is_v4(v: u128) -> bool {
    v & 0xF000_C000_0000_0000_0000u128 == 0x4000_8000_0000_0000_0000u128
}

/// The version and variant bits of a time-ordered (v7) UUID.
pub open spec fn is_v7(v: u128) -> bool {
    v & 0xF000_C000_0000_0000_0000u128 == 0x7000_8000_0000_0000_0000u128
}

/// A fresh random UUID value.
///
/// Calls `Uuid::new_v4`. The value is random ; the contract claims only
/// the version nibble `4` and the RFC 4122 variant bits, which `new_v4`
/// forces on every value it returns.
#[verifier::external_body]
fn random_uuid() -> (v: u128)
    ensures
        is_v4(v),
{
    Uuid::new_v4().as_u128()
}

/// A fresh time-ordered UUID value.
///
/// Calls `Uuid::now_v7`. The value depends on the clock and on chance ;
/// the contract claims only the version nibble `7` and the RFC 4122
/// variant bits, which the v7 builder forces on every value.
#[verifier::external_body]
fn time_ordered_uuid() -> (v: u128)
    ensures
        is_v7(v),
{
    Uuid::now_v7().as_u128()
}

/// Parse the text form of a UUID.
///
/// Calls `Uuid::parse_str`. The contract names its outcome
/// [`uuid_parse`] (the value, or the message of the error), and states
/// the fact the parser's source plainly shows : a hyphenated lower-case
/// UUID text is accepted, as the value it spells.
#[verifier::external_body]
fn parse_uuid(s: &str) -> (r: Result<u128, String>)
    ensures
        match r {
            Ok(v) => uuid_parse(s@) == Ok::<u128, Seq<char>>(v),
            Err(m) => uuid_parse(s@) == Err::<u128, Seq<char>>(m@),
        },
        is_uuid_text(s@) ==> r is Ok && uuid_text(r->Ok_0) == s@,
{
    match Uuid::parse_str(s) {
        Ok(u) => Ok(u.as_u128()),
        Err(e) => Err(e.to_string()),
    }
}

/// Parse the text form of a UUID ; the text of a value parses back to
/// that value.
fn parse_value(s: &str) -> (r: Result<u128, String>)
    ensures
        match r {
            Ok(v) => uuid_parse(s@) == Ok::<u128, Seq<char>>(v),
            Err(m) => uuid_parse(s@) == Err::<u128, Seq<char>>(m@),
        },
        is_uuid_text(s@) ==> r is Ok && uuid_text(r->Ok_0) == s@,
        forall|w: u128| #[trigger] uuid_text(w) == s@ ==> r == Ok::<u128, String>(w),
{
    let r = parse_uuid(s);
    proof {
        assert forall|w: u128| #[trigger] uuid_text(w) == s@ implies r == Ok::<u128, String>(w) by {
            assert(is_uuid_text(s@));
            lemma_uuid_text_injective(w, r->Ok_0);
        }
    }
    r
}

/// Text form of a UUID value.
///
/// Calls `Uuid::to_string` (its `Display`), which writes the hyphenated
/// lower-case form described by [`uuid_text`].
#[verifier::external_body]
fn format_uuid(v: u128) -> (r: String)
    ensures
        r@ == uuid_text(v),
{
    Uuid::from_u128(v).to_string()
}

/// The 128 bits a `Uuid` holds, most significant first.
pub uninterp spec fn uuid_bits(u: Uuid) -> u128;

/// The 128-bit value of a `Uuid`.
///
/// Calls `Uuid::as_u128`, which reads back the 128 bits the UUID holds :
/// the contract names them [`uuid_bits`].
#[verifier::external_body]
fn uuid_value(u: &Uuid) -> (v: u128)
    ensures
        v == uuid_bits(*u),
{
    u.as_u128()
}

/// The `Uuid` of a 128-bit value.
///
/// Calls `Uuid::from_u128`, which stores the value as the UUID's 128 bits.
#[verifier::external_body]
fn uuid_from_value(v: u128) -> (u: Uuid)
    ensures
        uuid_bits(u) == v,
{
    Uuid::from_u128(v)
}

/// Identifier of a BSE project (the root container).
#[derive(Clone, Copy, Debug, PartialEq, Eq, Hash, PartialOrd, Ord, Structural)]
pub struct ProjectId(pub u128);

impl ProjectId {
    /// Generate a new random v4 identifier.
    pub fn new() -> (id: Self)
        ensures
            is_v4(id.0),
    {
        ProjectId(random_uuid())
    }

    /// Generate a new time-ordered v7 identifier.
    pub fn new_v7() -> (id: Self)
        ensures
            is_v7(id.0),
    {
        ProjectId(time_ordered_uuid())
    }

    /// Construct from an existing UUID.
    pub fn from_uuid(uuid: Uuid) -> (id: Self)
        ensures
            id.0 == uuid_bits(uuid),
    {
        ProjectId(uuid_value(&uuid))
    }

    /// The underlying UUID.
    pub fn as_uuid(&self) -> (u: Uuid)
        ensures
            uuid_bits(u) == self.0,
    {
        uuid_from_value(self.0)
    }

    /// Hyphenated lower-case text form.
    pub fn to_string(&self) -> (s: String)
        ensures
            s@ == uuid_text(self.0),
    {
        format_uuid(self.0)
    }

    /// Parse a UUID text ; the error carries the parser's message. The
    /// text of an id (`to_string`) parses back to that id.
    pub fn parse_str(s: &str) -> (r: Result<Self, String>)
        ensures
            r matches Ok(id) ==> uuid_parse(s@) == Ok::<u128, Seq<char>>(id.0),
            r matches Err(m) ==> uuid_parse(s@) == Err::<u128, Seq<char>>(m@),
            is_uuid_text(s@) ==> r is Ok && uuid_text(r->Ok_0.0) == s@,
            forall|w: u128| #[trigger] uuid_text(w) == s@ ==> r == Ok::<Self, String>(ProjectId(w)),
    {
        match parse_value(s) {
            Ok(v) => Ok(ProjectId(v)),
            Err(m) => Err(m),
        }
    }
}

impl Default for ProjectId {
    fn default() -> (id: Self)
        ensures
            is_v7(id.0),
    {
        ProjectId::new_v7()
    }
}

impl core::str::FromStr for ProjectId {
    type Err = String;

    fn from_str(s: &str) -> (r: Result<Self, String>)
        ensures
            r matches Ok(id) ==> uuid_parse(s@) == Ok::<u128, Seq<char>>(id.0),
            r matches Err(m) ==> uuid_parse(s@) == Err::<u128, Seq<char>>(m@),
            is_uuid_text(s@) ==> r is Ok && uuid_text(r->Ok_0.0) == s@,
            forall|w: u128| #[trigger] uuid_text(w) == s@ ==> r == Ok::<Self, String>(ProjectId(w)),
    {
        ProjectId::parse_str(s)
    }
}

/// Identifier of an element on the canvas (shape, pen stroke, text, ...).
#[derive(Clone, Copy, Debug, PartialEq, Eq, Hash, PartialOrd, Ord, Structural)]
pub struct ElementId(pub u128);

impl ElementId {
    /// Generate a new random v4 identifier.
    pub fn new() -> (id: Self)
        ensures
            is_v4(id.0),
    {
        ElementId(random_uuid())
    }

    /// Generate a new time-ordered v7 identifier.
    pub fn new_v7() -> (id: Self)
        ensures
            is_v7(id.0),
    {
        ElementId(time_ordered_uuid())
    }

    /// Construct from an existing UUID.
    pub fn from_uuid(uuid: Uuid) -> (id: Self)
        ensures
            id.0 == uuid_bits(uuid),
    {
        ElementId(uuid_value(&uuid))
    }

    /// The underlying UUID.
    pub fn as_uuid(&self) -> (u: Uuid)
        ensures
            uuid_bits(u) == self.0,
    {
        uuid_from_value(self.0)
    }

    /// Hyphenated lower-case text form.
    pub fn to_string(&self) -> (s: String)
        ensures
            s@ == uuid_text(self.0),
    {
        format_uuid(self.0)
    }

    /// Parse a UUID text ; the error carries the parser's message. The
    /// text of an id (`to_string`) parses back to that id.
    pub fn parse_str(s: &str) -> (r: Result<Self, String>)
        ensures
            r matches Ok(id) ==> uuid_parse(s@) == Ok::<u128, Seq<char>>(id.0),
            r matches Err(m) ==> uuid_parse(s@) == Err::<u128, Seq<char>>(m@),
            is_uuid_text(s@) ==> r is Ok && uuid_text(r->Ok_0.0) == s@,
            forall|w: u128| #[trigger] uuid_text(w) == s@ ==> r == Ok::<Self, String>(ElementId(w)),
    {
        match parse_value(s) {
            Ok(v) => Ok(ElementId(v)),
            Err(m) => Err(m),
        }
    }
}

impl Default for ElementId {
    fn default() -> (id: Self)
        ensures
            is_v7(id.0),
    {
        ElementId::new_v7()
    }
}

impl core::str::FromStr for ElementId {
    type Err = String;

    fn from_str(s: &str) -> (r: Result<Self, String>)
        ensures
            r matches Ok(id) ==> uuid_parse(s@) == Ok::<u128, Seq<char>>(id.0),
            r matches Err(m) ==> uuid_parse(s@) == Err::<u128, Seq<char>>(m@),
            is_uuid_text(s@) ==> r is Ok && uuid_text(r->Ok_0.0) == s@,
            forall|w: u128| #[trigger] uuid_text(w) == s@ ==> r == Ok::<Self, String>(ElementId(w)),
    {
        ElementId::parse_str(s)
    }
}

/// Identifier of a user account.
#[derive(Clone, Copy, Debug, PartialEq, Eq, Hash, PartialOrd, Ord, Structural)]
pub struct UserId(pub u128);

impl UserId {
    /// Generate a new random v4 identifier.
    pub fn new() -> (id: Self)
        ensures
            is_v4(id.0),
    {
        UserId(random_uuid())
    }

    /// Generate a new time-ordered v7 identifier.
    pub fn new_v7() -> (id: Self)
        ensures
            is_v7(id.0),
    {
        UserId(time_ordered_uuid())
    }

    /// Construct from an existing UUID.
    pub fn from_uuid(uuid: Uuid) -> (id: Self)
        ensures
            id.0 == uuid_bits(uuid),
    {
        UserId(uuid_value(&uuid))
    }

    /// The underlying UUID.
    pub fn as_uuid(&self) -> (u: Uuid)
        ensures
            uuid_bits(u) == self.0,
    {
        uuid_from_value(self.0)
    }

    /// Hyphenated lower-case text form.
    pub fn to_string(&self) -> (s: String)
        ensures
            s@ == uuid_text(self.0),
    {
        format_uuid(self.0)
    }

    /// Parse a UUID text ; the error carries the parser's message. The
    /// text of an id (`to_string`) parses back to that id.
    pub fn parse_str(s: &str) -> (r: Result<Self, String>)
        ensures
            r matches Ok(id) ==> uuid_parse(s@) == Ok::<u128, Seq<char>>(id.0),
            r matches Err(m) ==> uuid_parse(s@) == Err::<u128, Seq<char>>(m@),
            is_uuid_text(s@) ==> r is Ok && uuid_text(r->Ok_0.0) == s@,
            forall|w: u128| #[trigger] uuid_text(w) == s@ ==> r == Ok::<Self, String>(UserId(w)),
    {
        match parse_value(s) {
            Ok(v) => Ok(UserId(v)),
            Err(m) => Err(m),
        }
    }
}

impl Default for UserId {
    fn default() -> (id: Self)
        ensures
            is_v7(id.0),
    {
        UserId::new_v7()
    }
}

impl core::str::FromStr for UserId {
    type Err = String;

    fn from_str(s: &str) -> (r: Result<Self, String>)
        ensures
            r matches Ok(id) ==> uuid_parse(s@) == Ok::<u128, Seq<char>>(id.0),
            r matches Err(m) ==> uuid_parse(s@) == Err::<u128, Seq<char>>(m@),
            is_uuid_text(s@) ==> r is Ok && uuid_text(r->Ok_0.0) == s@,
            forall|w: u128| #[trigger] uuid_text(w) == s@ ==> r == Ok::<Self, String>(UserId(w)),
    {
        UserId::parse_str(s)
    }
}

/// Identifier of a connected peer in a room ; one user can have several peers.
#[derive(Clone, Copy, Debug, PartialEq, Eq, Hash, PartialOrd, Ord, Structural)]
pub struct PeerId(pub u128);

impl PeerId {
    /// Generate a new random v4 identifier.
    pub fn new() -> (id: Self)
        ensures
            is_v4(id.0),
    {
        PeerId(random_uuid())
    }

    /// Generate a new time-ordered v7 identifier.
    pub fn new_v7() -> (id: Self)
        ensures
            is_v7(id.0),
    {
        PeerId(time_ordered_uuid())
    }

    /// Construct from an existing UUID.
    pub fn from_uuid(uuid: Uuid) -> (id: Self)
        ensures
            id.0 == uuid_bits(uuid),
    {
        PeerId(uuid_value(&uuid))
    }

    /// The underlying UUID.
    pub fn as_uuid(&self) -> (u: Uuid)
        ensures
            uuid_bits(u) == self.0,
    {
        uuid_from_value(self.0)
    }

    /// Hyphenated lower-case text form.
    pub fn to_string(&self) -> (s: String)
        ensures
            s@ == uuid_text(self.0),
    {
        format_uuid(self.0)
    }

    /// Parse a UUID text ; the error carries the parser's message. The
    /// text of an id (`to_string`) parses back to that id.
    pub fn parse_str(s: &str) -> (r: Result<Self, String>)
        ensures
            r matches Ok(id) ==> uuid_parse(s@) == Ok::<u128, Seq<char>>(id.0),
            r matches Err(m) ==> uuid_parse(s@) == Err::<u128, Seq<char>>(m@),
            is_uuid_text(s@) ==> r is Ok && uuid_text(r->Ok_0.0) == s@,
            forall|w: u128| #[trigger] uuid_text(w) == s@ ==> r == Ok::<Self, String>(PeerId(w)),
    {
        match parse_value(s) {
            Ok(v) => Ok(PeerId(v)),
            Err(m) => Err(m),
        }
    }
}

impl Default for PeerId {
    fn default() -> (id: Self)
        ensures
            is_v7(id.0),
    {
        PeerId::new_v7()
    }
}

impl core::str::FromStr for PeerId {
    type Err = String;

    fn from_str(s: &str) -> (r: Result<Self, String>)
        ensures
            r matches Ok(id) ==> uuid_parse(s@) == Ok::<u128, Seq<char>>(id.0),
            r matches Err(m) ==> uuid_parse(s@) == Err::<u128, Seq<char>>(m@),
            is_uuid_text(s@) ==> r is Ok && uuid_text(r->Ok_0.0) == s@,
            forall|w: u128| #[trigger] uuid_text(w) == s@ ==> r == Ok::<Self, String>(PeerId(w)),
    {
        PeerId::parse_str(s)
    }
}

/// Identifier of an asset (image, file).
#[derive(Clone, Copy, Debug, PartialEq, Eq, Hash, PartialOrd, Ord, Structural)]
pub struct AssetId(pub u128);

impl AssetId {
    /// Generate a new random v4 identifier.
    pub fn new() -> (id: Self)
        ensures
            is_v4(id.0),
    {
        AssetId(random_uuid())
    }

    /// Generate a new time-ordered v7 identifier.
    pub fn new_v7() -> (id: Self)
        ensures
            is_v7(id.0),
    {
        AssetId(time_ordered_uuid())
    }

    /// Construct from an existing UUID.
    pub fn from_uuid(uuid: Uuid) -> (id: Self)
        ensures
            id.0 == uuid_bits(uuid),
    {
        AssetId(uuid_value(&uuid))
    }

    /// The underlying UUID.
    pub fn as_uuid(&self) -> (u: Uuid)
        ensures
            uuid_bits(u) == self.0,
    {
        uuid_from_value(self.0)
    }

    /// Hyphenated lower-case text form.
    pub fn to_string(&self) -> (s: String)
        ensures
            s@ == uuid_text(self.0),
    {
        format_uuid(self.0)
    }

    /// Parse a UUID text ; the error carries the parser's message. The
    /// text of an id (`to_string`) parses back to that id.
    pub fn parse_str(s: &str) -> (r: Result<Self, String>)
        ensures
            r matches Ok(id) ==> uuid_parse(s@) == Ok::<u128, Seq<char>>(id.0),
            r matches Err(m) ==> uuid_parse(s@) == Err::<u128, Seq<char>>(m@),
            is_uuid_text(s@) ==> r is Ok && uuid_text(r->Ok_0.0) == s@,
            forall|w: u128| #[trigger] uuid_text(w) == s@ ==> r == Ok::<Self, String>(AssetId(w)),
    {
        match parse_value(s) {
            Ok(v) => Ok(AssetId(v)),
            Err(m) => Err(m),
        }
    }
}

impl Default for AssetId {
    fn default() -> (id: Self)
        ensures
            is_v7(id.0),
    {
        AssetId::new_v7()
    }
}

impl core::str::FromStr for AssetId {
    type Err = String;

    fn from_str(s: &str) -> (r: Result<Self, String>)
        ensures
            r matches Ok(id) ==> uuid_parse(s@) == Ok::<u128, Seq<char>>(id.0),
            r matches Err(m) ==> uuid_parse(s@) == Err::<u128, Seq<char>>(m@),
            is_uuid_text(s@) ==> r is Ok && uuid_text(r->Ok_0.0) == s@,
            forall|w: u128| #[trigger] uuid_text(w) == s@ ==> r == Ok::<Self, String>(AssetId(w)),
    {
        AssetId::parse_str(s)
    }
}

/// Identifier of a comment anchored on the canvas.
#[derive(Clone, Copy, Debug, PartialEq, Eq, Hash, PartialOrd, Ord, Structural)]
pub struct CommentId(pub u128);

impl CommentId {
    /// Generate a new random v4 identifier.
    pub fn new() -> (id: Self)
        ensures
            is_v4(id.0),
    {
        CommentId(random_uuid())
    }

    /// Generate a new time-ordered v7 identifier.
    pub fn new_v7() -> (id: Self)
        ensures
            is_v7(id.0),
    {
        CommentId(time_ordered_uuid())
    }

    /// Construct from an existing UUID.
    pub fn from_uuid(uuid: Uuid) -> (id: Self)
        ensures
            id.0 == uuid_bits(uuid),
    {
        CommentId(uuid_value(&uuid))
    }

    /// The underlying UUID.
    pub fn as_uuid(&self) -> (u: Uuid)
        ensures
            uuid_bits(u) == self.0,
    {
        uuid_from_value(self.0)
    }

    /// Hyphenated lower-case text form.
    pub fn to_string(&self) -> (s: String)
        ensures
            s@ == uuid_text(self.0),
    {
        format_uuid(self.0)
    }

    /// Parse a UUID text ; the error carries the parser's message. The
    /// text of an id (`to_string`) parses back to that id.
    pub fn parse_str(s: &str) -> (r: Result<Self, String>)
        ensures
            r matches Ok(id) ==> uuid_parse(s@) == Ok::<u128, Seq<char>>(id.0),
            r matches Err(m) ==> uuid_parse(s@) == Err::<u128, Seq<char>>(m@),
            is_uuid_text(s@) ==> r is Ok && uuid_text(r->Ok_0.0) == s@,
            forall|w: u128| #[trigger] uuid_text(w) == s@ ==> r == Ok::<Self, String>(CommentId(w)),
    {
        match parse_value(s) {
            Ok(v) => Ok(CommentId(v)),
            Err(m) => Err(m),
        }
    }
}

impl Default for CommentId {
    fn default() -> (id: Self)
        ensures
            is_v7(id.0),
    {
        CommentId::new_v7()
    }
}

impl core::str::FromStr for CommentId {
    type Err = String;

    fn from_str(s: &str) -> (r: Result<Self, String>)
        ensures
            r matches Ok(id) ==> uuid_parse(s@) == Ok::<u128, Seq<char>>(id.0),
            r matches Err(m) ==> uuid_parse(s@) == Err::<u128, Seq<char>>(m@),
            is_uuid_text(s@) ==> r is Ok && uuid_text(r->Ok_0.0) == s@,
            forall|w: u128| #[trigger] uuid_text(w) == s@ ==> r == Ok::<Self, String>(CommentId(w)),
    {
        CommentId::parse_str(s)
    }
}

/// Distinct identifier values have distinct text forms : the text of an
/// identifier parses back to that identifier and no other.
pub proof fn lemma_uuid_text_injective(v1: u128, v2: u128)
    requires
        uuid_text(v1) == uuid_text(v2),
    ensures
        v1 == v2,
{
    assert forall|k: int| 0 <= k < 32 implies nibble(v1, k) == nibble(v2, k) by {
        let i = k + (if k >= 20 {
            4int
        } else if k >= 16 {
            3int
        } else if k >= 12 {
            2int
        } else if k >= 8 {
            1int
        } else {
            0int
        });
        assert(!hyphen_at(i) && digit_index(i) == k);
        assert(uuid_text(v1)[i] == uuid_text(v2)[i]);
        assert(uuid_text(v1)[i] == hex_lower(nibble(v1, k)));
        assert(uuid_text(v2)[i] == hex_lower(nibble(v2, k)));
        lemma_nibble_range(v1, k);
        lemma_nibble_range(v2, k);
    }
    lemma_high_nibbles(v1, v2, 32);
    assert(v1 >> 0u128 == v1 && v2 >> 0u128 == v2) by (bit_vector);
}

/// Shifting right by `s` is shifting right by `s + 4`, shifting back
/// left by 4 and putting back the low nibble.
proof fn lemma_shift_split(v: u128, s: u128)
    requires
        s <= 124,
    ensures
        v >> s == ((v >> ((s + 4) as u128)) << 4u128) | ((v >> s) & 0xfu128),
{
    assert(v >> s == ((v >> ((s + 4) as u128)) << 4u128) | ((v >> s) & 0xfu128)) by (bit_vector)
        requires
            s <= 124,
    ;
}

/// When the first `j` nibbles of two values agree, so do their top
/// `4 * j` bits.
proof fn lemma_high_nibbles(v1: u128, v2: u128, j: int)
    requires
        1 <= j <= 32,
        forall|k: int| 0 <= k < 32 ==> nibble(v1, k) == nibble(v2, k),
    ensures
        v1 >> ((128 - 4 * j) as u128) == v2 >> ((128 - 4 * j) as u128),
    decreases j,
{
    if j == 1 {
        assert(nibble(v1, 0) == nibble(v2, 0));
        assert(v1 >> 124u128 == (v1 >> 124u128) & 0xfu128 && v2 >> 124u128 == (v2 >> 124u128)
            & 0xfu128) by (bit_vector);
    } else {
        lemma_high_nibbles(v1, v2, j - 1);
        let s = (128 - 4 * j) as u128;
        assert((s + 4) as u128 == (128 - 4 * (j - 1)) as u128);
        assert(s == (124 - 4 * (j - 1)) as u128);
        assert(nibble(v1, j - 1) == nibble(v2, j - 1));
        lemma_shift_split(v1, s);
        lemma_shift_split(v2, s);
    }
}

proof fn lemma_nibble_range(v: u128, k: int)
    requires
        0 <= k < 32,
    ensures
        0 <= nibble(v, k) < 16,
{
    let s = (124 - 4 * k) as u128;
    assert((v >> s) & 0xfu128 < 16) by (bit_vector);
}

} // verus!
