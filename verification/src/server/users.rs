//! In-memory user directory, keyed by lower-cased e-mail.
//!
//! Password hashing and verification are done by the caller ; the
//! directory stores the resulting hash and decides which e-mails are
//! taken, which id a login maps to and what a repeated seed returns.

use vstd::prelude::*;
use vstd::relations::injective_on;
use vstd::set_lib::{lemma_int_range, lemma_len_subset, lemma_map_size, set_int_range};
use crate::ids::{is_v7, UserId};
use crate::text::{all_ascii, lower_seq, lowercase, to_lowercase};

verus! {

/// One user record. Only the password hash is stored.
#[derive(Clone, Debug)]
pub struct UserRecord {
    /// Stable identifier.
    pub id: UserId,
    /// Login email, as registered.
    pub email: String,
    /// Display name shown to other peers.
    pub display_name: String,
    /// Argon2id PHC hash of the password.
    pub password_hash: String,
}

impl UserRecord {
    /// A field-by-field copy of the record.
    pub fn duplicate(&self) -> (r: UserRecord)
        ensures
            r == *self,
    {
        UserRecord {
            id: self.id,
            email: self.email.clone(),
            display_name: self.display_name.clone(),
            password_hash: self.password_hash.clone(),
        }
    }
}

/// In-memory user directory.
pub struct UserStore {
    entries: Vec<(String, UserRecord)>,
}

/// The key an e-mail is filed under : its lower-cased form.
pub open spec fn email_key(email: Seq<char>) -> Seq<char> {
    lowercase(email)
}

/// The key `email` is filed under, as stored in the `email_lc` column.
pub fn email_key_of(email: &str) -> (k: String)
    ensures
        k@ == email_key(email@),
        all_ascii(email@) ==> k@ == lower_seq(email@),
{
    to_lowercase(email)
}

/// The record a registration files under `email`.
pub open spec fn new_record(
    id: UserId,
    email: Seq<char>,
    display_name: Seq<char>,
    password_hash: String,
    r: UserRecord,
) -> bool {
    &&& r.id == id
    &&& r.email@ == email
    &&& r.display_name@ == display_name
    &&& r.password_hash == password_hash
}

/// Fallback id number `k` : the time-ordered (v7) version and variant
/// bits, with `k` spread over bits that carry neither.
pub open spec fn fallback_id(k: u128) -> u128 {
    0x7000_8000_0000_0000_0000u128 | (k & 0x3FFF_FFFF_FFFF_FFFFu128) | ((k >> 62u128) << 64u128)
}

/// Fallback ids are v7 ids, distinct for distinct numbers below 2^64.
proof fn lemma_fallback_id(k1: u128, k2: u128)
    requires
        k1 < 0x1_0000_0000_0000_0000u128,
        k2 < 0x1_0000_0000_0000_0000u128,
    ensures
        is_v7(fallback_id(k1)),
        fallback_id(k1) == fallback_id(k2) ==> k1 == k2,
{
    assert((0x7000_8000_0000_0000_0000u128 | (k1 & 0x3FFF_FFFF_FFFF_FFFFu128) | ((k1 >> 62u128)
        << 64u128)) & 0xF000_C000_0000_0000_0000u128 == 0x7000_8000_0000_0000_0000u128)
        by (bit_vector)
        requires
            k1 < 0x1_0000_0000_0000_0000u128,
    ;
    assert((0x7000_8000_0000_0000_0000u128 | (k1 & 0x3FFF_FFFF_FFFF_FFFFu128) | ((k1 >> 62u128)
        << 64u128)) == (0x7000_8000_0000_0000_0000u128 | (k2 & 0x3FFF_FFFF_FFFF_FFFFu128) | ((k2
        >> 62u128) << 64u128)) ==> k1 == k2) by (bit_vector)
        requires
            k1 < 0x1_0000_0000_0000_0000u128,
            k2 < 0x1_0000_0000_0000_0000u128,
    ;
}

/// Among the first `ids.len() + 1` fallback ids, one is not in `ids`.
proof fn lemma_some_fallback_free(ids: Seq<u128>)
    requires
        ids.len() < 0x1_0000_0000_0000_0000u128,
    ensures
        exists|k: u128| k <= ids.len() && !ids.contains(#[trigger] fallback_id(k)),
{
    if forall|k: u128| k <= ids.len() ==> ids.contains(#[trigger] fallback_id(k)) {
        let n = ids.len() as int;
        let f = |j: int| fallback_id(j as u128);
        let x = set_int_range(0, n + 1);
        lemma_int_range(0, n + 1);
        assert forall|a: int, b: int| x.contains(a) && x.contains(b) && #[trigger] f(a) == #[trigger] f(
            b,
        ) implies a == b by {
            lemma_fallback_id(a as u128, b as u128);
        }
        assert(injective_on(f, x));
        let y = x.map(f);
        lemma_map_size(x, y, f);
        let s = ids.to_set();
        ids.lemma_cardinality_of_set();
        assert forall|v: u128| y.contains(v) implies s.contains(v) by {
            let j = choose|j: int| x.contains(j) && f(j) == v;
            assert(fallback_id(j as u128) == v);
            assert(ids.contains(fallback_id(j as u128)));
        }
        assert(y.subset_of(s));
        assert(s.finite()) by {
            broadcast use vstd::seq_lib::seq_to_set_is_finite;
        }
        lemma_len_subset(y, s);
        assert(false);
    }
}

impl UserStore {
    spec fn has_key(self, key: Seq<char>) -> bool {
        exists|i: int| 0 <= i < self.entries@.len() && self.entries@[i].0@ == key
    }

    spec fn key_index(self, key: Seq<char>) -> int {
        choose|i: int| 0 <= i < self.entries@.len() && self.entries@[i].0@ == key
    }

    /// The records, keyed by lower-cased e-mail.
    pub closed spec fn view(self) -> Map<Seq<char>, UserRecord> {
        Map::new(
            |key: Seq<char>| self.has_key(key),
            |key: Seq<char>| self.entries@[self.key_index(key)].1,
        )
    }

    /// Keys are distinct.
    pub closed spec fn wf(self) -> bool {
        &&& forall|i: int, j: int|
            0 <= i < j < self.entries@.len() ==> (#[trigger] self.entries@[i]).0@
                != (#[trigger] self.entries@[j]).0@
        &&& forall|i: int, j: int|
            0 <= i < j < self.entries@.len() ==> (#[trigger] self.entries@[i]).1.id
                != (#[trigger] self.entries@[j]).1.id
    }

    proof fn lemma_view_at(self, i: int)
        requires
            self.wf(),
            0 <= i < self.entries@.len(),
        ensures
            self.view().contains_key(self.entries@[i].0@),
            self.view()[self.entries@[i].0@] == self.entries@[i].1,
    {
        let key = self.entries@[i].0@;
        assert(self.has_key(key));
        let k = self.key_index(key);
        if k != i {
            if k < i {
                assert(self.entries@[k].0@ != self.entries@[i].0@);
            } else {
                assert(self.entries@[i].0@ != self.entries@[k].0@);
            }
        }
    }

    /// The ids of the records, in filing order.
    spec fn ids(self) -> Seq<u128> {
        self.entries@.map_values(|e: (String, UserRecord)| e.1.id.0)
    }

    /// Every record of the directory has its id among [`Self::ids`].
    proof fn lemma_view_ids(self)
        requires
            self.wf(),
        ensures
            forall|k: Seq<char>| #[trigger] self.view().contains_key(k) ==> self.ids().contains(
                self.view()[k].id.0,
            ),
    {
        assert forall|k: Seq<char>| #[trigger] self.view().contains_key(k) implies self.ids().contains(
            self.view()[k].id.0,
        ) by {
            let w = self.key_index(k);
            self.lemma_view_at(w);
            assert(self.ids()[w] == self.view()[k].id.0);
        }
    }

    fn id_in_use(&self, v: u128) -> (b: bool)
        ensures
            b == self.ids().contains(v),
    {
        let mut i: usize = 0;
        while i < self.entries.len()
            invariant
                i <= self.entries@.len(),
                forall|j: int| 0 <= j < i ==> self.ids()[j] != v,
            decreases self.entries@.len() - i,
        {
            if self.entries[i].1.id.0 == v {
                assert(self.ids()[i as int] == v);
                return true;
            }
            i = i + 1;
        }
        false
    }

    /// A time-ordered id that no record holds : the one the generator
    /// draws, which is later than every id it gave before in this
    /// process ; should it ever be taken all the same, the first fallback
    /// id that is free.
    fn fresh_id(&self) -> (id: UserId)
        ensures
            is_v7(id.0),
            !self.ids().contains(id.0),
    {
        let drawn = UserId::new_v7();
        if !self.id_in_use(drawn.0) {
            return drawn;
        }
        let n = self.entries.len() as u128;
        assert(n <= 0xFFFF_FFFF_FFFF_FFFFu128);
        proof {
            lemma_some_fallback_free(self.ids());
        }
        let mut k: u128 = 0;
        while k <= n
            invariant
                n == self.ids().len(),
                n <= 0xFFFF_FFFF_FFFF_FFFFu128,
                k <= n + 1,
                forall|j: u128| j < k ==> self.ids().contains(#[trigger] fallback_id(j)),
            decreases n + 1 - k,
        {
            let c = 0x7000_8000_0000_0000_0000u128 | (k & 0x3FFF_FFFF_FFFF_FFFFu128) | ((k >> 62u128)
                << 64u128);
            assert(c == fallback_id(k));
            if !self.id_in_use(c) {
                proof {
                    lemma_fallback_id(k, k);
                }
                return UserId(c);
            }
            k = k + 1;
        }
        proof {
            let k0 = choose|k: u128| k <= self.ids().len() && !self.ids().contains(
                #[trigger] fallback_id(k),
            );
            assert(k0 < k);
        }
        drawn
    }

    /// Every account of a directory has its own id : two accounts filed
    /// under different e-mails never share one.
    pub proof fn lemma_account_ids_distinct(self, a: Seq<char>, b: Seq<char>)
        requires
            self.wf(),
            self.view().contains_key(a),
            self.view().contains_key(b),
            a != b,
        ensures
            self.view()[a].id != self.view()[b].id,
    {
        let i = self.key_index(a);
        let j = self.key_index(b);
        self.lemma_view_at(i);
        self.lemma_view_at(j);
        assert(i != j);
        if i < j {
            assert(self.entries@[i].1.id != self.entries@[j].1.id);
        } else {
            assert(self.entries@[j].1.id != self.entries@[i].1.id);
        }
    }

    /// An empty directory.
    pub fn new() -> (s: UserStore)
        ensures
            s.wf(),
            s.view() == Map::<Seq<char>, UserRecord>::empty(),
    {
        let s = UserStore { entries: Vec::new() };
        assert(s.view() =~= Map::<Seq<char>, UserRecord>::empty());
        s
    }

    fn find(&self, key: &String) -> (r: Option<usize>)
        requires
            self.wf(),
        ensures
            match r {
                Some(i) => i < self.entries@.len() && self.entries@[i as int].0@ == key@,
                None => !self.view().contains_key(key@),
            },
    {
        let mut i: usize = 0;
        while i < self.entries.len()
            invariant
                i <= self.entries@.len(),
                forall|j: int| 0 <= j < i ==> self.entries@[j].0@ != key@,
            decreases self.entries@.len() - i,
        {
            if self.entries[i].0 == *key {
                return Some(i);
            }
            i = i + 1;
        }
        None
    }

    fn insert_new(&mut self, key: String, record: UserRecord)
        requires
            old(self).wf(),
            !old(self).view().contains_key(key@),
            !old(self).ids().contains(record.id.0),
        ensures
            final(self).wf(),
            final(self).view() == old(self).view().insert(key@, record),
    {
        let ghost old_self = *self;
        let ghost k = key@;
        let ghost rid = record.id;
        self.entries.push((key, record));
        proof {
            let n = old_self.entries@.len() as int;
            assert forall|a: int, b: int|
                0 <= a < b < self.entries@.len() implies (#[trigger] self.entries@[a]).1.id
                != (#[trigger] self.entries@[b]).1.id by {
                if b == n {
                    assert(old_self.ids()[a] == old_self.entries@[a].1.id.0);
                    assert(self.entries@[a] == old_self.entries@[a]);
                } else {
                    assert(self.entries@[a] == old_self.entries@[a]);
                    assert(self.entries@[b] == old_self.entries@[b]);
                }
            }
            assert forall|a: int, b: int|
                0 <= a < b < self.entries@.len() implies (#[trigger] self.entries@[a]).0@
                != (#[trigger] self.entries@[b]).0@ by {
                if b == n {
                    assert(old_self.entries@[a].0@ != k) by {
                        if old_self.entries@[a].0@ == k {
                            assert(old_self.has_key(k));
                        }
                    }
                } else {
                    assert(self.entries@[a] == old_self.entries@[a]);
                    assert(self.entries@[b] == old_self.entries@[b]);
                }
            }
            let want = old_self.view().insert(k, record);
            assert forall|q: Seq<char>| #[trigger] self.view().contains_key(q) == want.contains_key(
                q,
            ) by {
                if self.has_key(q) {
                    let w = self.key_index(q);
                    if w < n {
                        assert(old_self.entries@[w].0@ == q);
                    }
                }
                if old_self.has_key(q) {
                    let w = old_self.key_index(q);
                    assert(self.entries@[w].0@ == q);
                }
                if q == k {
                    assert(self.entries@[n].0@ == q);
                }
            }
            assert forall|q: Seq<char>| #[trigger] self.view().contains_key(q) implies self.view()[q]
                == want[q] by {
                let w = self.key_index(q);
                self.lemma_view_at(w);
                if w < n {
                    old_self.lemma_view_at(w);
                    assert(self.entries@[w] == old_self.entries@[w]);
                }
            }
            assert(self.view() =~= want);
        }
    }

    /// Whether an account already exists for `email` (case-insensitively).
    pub fn is_registered(&self, email: &str) -> (r: bool)
        requires
            self.wf(),
        ensures
            r == self.view().contains_key(email_key(email@)),
            all_ascii(email@) ==> email_key(email@) == lower_seq(email@),
    {
        let key = to_lowercase(email);
        self.find(&key).is_some()
    }

    /// The record filed under `email` (case-insensitively), if any.
    pub fn find_by_email(&self, email: &str) -> (r: Option<UserRecord>)
        requires
            self.wf(),
        ensures
            all_ascii(email@) ==> email_key(email@) == lower_seq(email@),
            match r {
                Some(rec) => self.view().contains_key(email_key(email@)) && rec == self.view()[email_key(
                    email@,
                )],
                None => !self.view().contains_key(email_key(email@)),
            },
    {
        let key = to_lowercase(email);
        match self.find(&key) {
            Some(i) => {
                proof {
                    self.lemma_view_at(i as int);
                }
                Some(self.entries[i].1.duplicate())
            },
            None => None,
        }
    }

    /// Seed an account at boot. Idempotent : when the e-mail is already
    /// taken the directory is unchanged and the existing id is returned ;
    /// otherwise a fresh time-ordered id is drawn, the record
    /// `(id, email, display_name, password_hash)` is filed and the id is
    /// returned.
    pub fn seed_if_empty(&mut self, email: &str, display_name: &str, password_hash: String) -> (r:
        UserId)
        requires
            old(self).wf(),
        ensures
            final(self).wf(),
            all_ascii(email@) ==> email_key(email@) == lower_seq(email@),
            old(self).view().contains_key(email_key(email@)) ==> {
                &&& r == old(self).view()[email_key(email@)].id
                &&& final(self).view() == old(self).view()
            },
            !old(self).view().contains_key(email_key(email@)) ==> {
                &&& is_v7(r.0)
                &&& forall|k: Seq<char>| #[trigger] old(self).view().contains_key(k) ==> old(
                    self,
                ).view()[k].id != r
                &&& final(self).view().dom() == old(self).view().dom().insert(email_key(email@))
                &&& forall|k: Seq<char>|
                    k != email_key(email@) && #[trigger] old(self).view().contains_key(k)
                        ==> final(self).view()[k] == old(self).view()[k]
                &&& new_record(r, email@, display_name@, password_hash, final(self).view()[email_key(email@)])
            },
    {
        let key = to_lowercase(email);
        match self.find(&key) {
            Some(i) => {
                proof {
                    self.lemma_view_at(i as int);
                }
                self.entries[i].1.id
            },
            None => {
                let id = self.fresh_id();
                proof {
                    self.lemma_view_ids();
                }
                let record = UserRecord {
                    id,
                    email: email.to_owned(),
                    display_name: display_name.to_owned(),
                    password_hash,
                };
                self.insert_new(key, record);
                id
            },
        }
    }

    /// Register a brand-new account. Returns `None`, leaving the
    /// directory unchanged, when the e-mail is already taken
    /// (case-insensitively) ; otherwise draws a fresh time-ordered id,
    /// files the record and returns the id.
    pub fn register(&mut self, email: &str, display_name: &str, password_hash: String) -> (r:
        Option<UserId>)
        requires
            old(self).wf(),
        ensures
            final(self).wf(),
            all_ascii(email@) ==> email_key(email@) == lower_seq(email@),
            old(self).view().contains_key(email_key(email@)) ==> {
                &&& r is None
                &&& final(self).view() == old(self).view()
            },
            !old(self).view().contains_key(email_key(email@)) ==> {
                &&& r is Some
                &&& is_v7(r.unwrap().0)
                &&& forall|k: Seq<char>| #[trigger] old(self).view().contains_key(k) ==> old(
                    self,
                ).view()[k].id != r.unwrap()
                &&& final(self).view().dom() == old(self).view().dom().insert(email_key(email@))
                &&& forall|k: Seq<char>|
                    k != email_key(email@) && #[trigger] old(self).view().contains_key(k)
                        ==> final(self).view()[k] == old(self).view()[k]
                &&& new_record(r.unwrap(), email@, display_name@, password_hash, final(self).view()[email_key(email@)])
            },
    {
        let key = to_lowercase(email);
        match self.find(&key) {
            Some(_) => None,
            None => {
                let id = self.fresh_id();
                proof {
                    self.lemma_view_ids();
                }
                let record = UserRecord {
                    id,
                    email: email.to_owned(),
                    display_name: display_name.to_owned(),
                    password_hash,
                };
                self.insert_new(key, record);
                Some(id)
            },
        }
    }
}

/// The outcome of a login once the password was checked against the
/// hash of the record filed under its e-mail : the record when the
/// password matched, `None` when it did not, the checker's error when
/// checking failed.
pub fn credentials_outcome<E>(record: UserRecord, password_matches: Result<bool, E>) -> (r: Result<
    Option<UserRecord>,
    E,
>)
    ensures
        match password_matches {
            Ok(true) => r == Ok::<Option<UserRecord>, E>(Some(record)),
            Ok(false) => r == Ok::<Option<UserRecord>, E>(None),
            Err(e) => r == Err::<Option<UserRecord>, E>(e),
        },
{
    match password_matches {
        Ok(true) => Ok(Some(record)),
        Ok(false) => Ok(None),
        Err(e) => Err(e),
    }
}

} // verus!
