//! Local persistence interface : project snapshots stored under a
//! string key.

use std::time::{Duration, SystemTime, SystemTimeError, UNIX_EPOCH};
use vstd::prelude::*;

verus! {

#[verifier::external_type_specification]
#[verifier::external_body]
pub struct ExSystemTime(SystemTime);

#[verifier::external_type_specification]
#[verifier::external_body]
pub struct ExSystemTimeError(SystemTimeError);

/// `SystemTime::now` : the wall-clock time at the call. Nothing is
/// claimed of the value.
#[verifier::external_body]
fn wall_clock_now() -> (t: SystemTime) {
    SystemTime::now()
}

/// `SystemTime::duration_since(UNIX_EPOCH)` : the time elapsed since the
/// Unix epoch, or an error when `t` lies before it. Nothing is claimed of
/// which comes back : it rests on the clock.
#[verifier::external_body]
fn elapsed_since_epoch(t: &SystemTime) -> (r: Result<Duration, SystemTimeError>) {
    t.duration_since(UNIX_EPOCH)
}

/// `Duration::as_secs` : the whole seconds of a duration. Nothing is
/// claimed of the value.
#[verifier::external_body]
fn whole_seconds(d: &Duration) -> (s: u64) {
    d.as_secs()
}

/// A count of seconds since the Unix epoch as a signed timestamp : `0`
/// when the clock read before the epoch (`None`), the count itself when
/// it fits in an `i64`, `i64::MAX` otherwise.
pub fn epoch_seconds_to_i64(since_epoch: Option<u64>) -> (t: i64)
    ensures
        t == (match since_epoch {
            None => 0int,
            Some(s) => if s <= i64::MAX {
                s as int
            } else {
                i64::MAX as int
            },
        }),
{
    match since_epoch {
        None => 0,
        Some(s) => if s <= 9223372036854775807u64 {
            s as i64
        } else {
            9223372036854775807i64
        },
    }
}

/// Current Unix timestamp in seconds, saturating at `0` if the system
/// clock is somehow before the epoch. Always in `0..=i64::MAX`.
pub fn unix_now_secs() -> (t: i64)
    ensures
        t >= 0,
{
    let now = wall_clock_now();
    let since = match elapsed_since_epoch(&now) {
        Ok(d) => Some(whole_seconds(&d)),
        Err(_) => None,
    };
    epoch_seconds_to_i64(since)
}

/// Errors produced by storage operations.
#[derive(Debug)]
pub enum StorageError {
    /// The underlying I/O operation failed.
    Io(String),
    /// Feature not yet implemented at this milestone.
    NotImplemented(&'static str),
}

/// The message of a storage error.
pub open spec fn storage_error_text(e: StorageError) -> Seq<char> {
    match e {
        StorageError::Io(m) => "I/O error : "@ + m@,
        StorageError::NotImplemented(m) => "not yet implemented : "@ + m@,
    }
}

impl StorageError {
    /// Human-readable message, e.g. `"I/O error : disk full"`.
    pub fn to_string(&self) -> (s: String)
        ensures
            s@ == storage_error_text(*self),
    {
        match self {
            StorageError::Io(m) => "I/O error : ".to_owned().concat(m.as_str()),
            StorageError::NotImplemented(m) => "not yet implemented : ".to_owned().concat(m),
        }
    }
}

/// Local storage of project snapshots, implemented by the storage
/// back-ends of the application.
pub trait LocalStorage: Send + Sync {
    /// Persist a project snapshot under a string key (typically the
    /// project id).
    fn save_snapshot(&mut self, key: &str, bytes: &[u8]) -> Result<(), StorageError>;

    /// Load a previously-saved snapshot, returning `None` if missing.
    fn load_snapshot(&self, key: &str) -> Result<Option<Vec<u8>>, StorageError>;
}

} // verus!
