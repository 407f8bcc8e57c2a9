//! User resolution: the table of local users, upserted by the provider's
//! stable subject identifier.
//!
//! `upsert_user` is the atomic insert-or-update of the login flow: a first
//! authentication for a subject creates the record, every later one
//! refreshes its email and display name in place. The subject stays unique
//! across the table.

use vstd::prelude::*;
use vstd::string::*;

use crate::oauth::UserInfo;
use crate::session::{UserRecord, UserRecordView};

verus! {

pub struct UserTableView {
    pub users: Seq<UserRecordView>,
    pub next_id: u64,
}

/// The store of user records, keyed by id and by subject.
pub struct UserTable {
    users: Vec<UserRecord>,
    next_id: u64,
}

impl View for UserTable {
    type V = UserTableView;

    closed spec fn view(&self) -> UserTableView {
        UserTableView {
            users: Seq::new(self.users@.len(), |i: int| self.users@[i]@),
            next_id: self.next_id,
        }
    }
}

/// First index of a record with the given subject, or -1.
pub open spec fn user_index(users: Seq<UserRecordView>, subject: Seq<char>) -> int
    decreases users.len(),
{
    if users.len() == 0 {
        -1
    } else if users[0].subject == subject {
        0
    } else {
        let r = user_index(users.drop_first(), subject);
        if r == -1 {
            -1
        } else {
            r + 1
        }
    }
}

/// First index of a record with the given id, or -1.
pub open spec fn user_id_index(users: Seq<UserRecordView>, id: u64) -> int
    decreases users.len(),
{
    if users.len() == 0 {
        -1
    } else if users[0].id == id {
        0
    } else {
        let r = user_id_index(users.drop_first(), id);
        if r == -1 {
            -1
        } else {
            r + 1
        }
    }
}

pub proof fn lemma_user_index_bounds(users: Seq<UserRecordView>, subject: Seq<char>)
    ensures
        user_index(users, subject) == -1 || (0 <= user_index(users, subject) < users.len()),
        user_index(users, subject) >= 0 ==> users[user_index(users, subject)].subject == subject,
        user_index(users, subject) == -1 ==> forall|i: int|
            0 <= i < users.len() ==> users[i].subject != subject,
        forall|i: int| 0 <= i < user_index(users, subject) ==> users[i].subject != subject,
    decreases users.len(),
{
    if users.len() > 0 && users[0].subject != subject {
        lemma_user_index_bounds(users.drop_first(), subject);
        assert(forall|i: int| 1 <= i < users.len() ==> users[i] == users.drop_first()[i - 1]);
    }
}

pub proof fn lemma_user_index_found(users: Seq<UserRecordView>, subject: Seq<char>, i: int)
    requires
        0 <= i < users.len(),
        users[i].subject == subject,
        forall|j: int| 0 <= j < i ==> users[j].subject != subject,
    ensures
        user_index(users, subject) == i,
    decreases i,
{
    if i > 0 {
        lemma_user_index_found(users.drop_first(), subject, i - 1);
    }
}

pub proof fn lemma_user_id_index_bounds(users: Seq<UserRecordView>, id: u64)
    ensures
        user_id_index(users, id) == -1 || (0 <= user_id_index(users, id) < users.len()),
        user_id_index(users, id) >= 0 ==> users[user_id_index(users, id)].id == id,
        user_id_index(users, id) == -1 ==> forall|i: int|
            0 <= i < users.len() ==> users[i].id != id,
    decreases users.len(),
{
    if users.len() > 0 && users[0].id != id {
        lemma_user_id_index_bounds(users.drop_first(), id);
        assert(forall|i: int| 1 <= i < users.len() ==> users[i] == users.drop_first()[i - 1]);
    }
}

pub proof fn lemma_user_id_index_found(users: Seq<UserRecordView>, id: u64, i: int)
    requires
        0 <= i < users.len(),
        users[i].id == id,
        forall|j: int| 0 <= j < i ==> users[j].id != id,
    ensures
        user_id_index(users, id) == i,
    decreases i,
{
    if i > 0 {
        lemma_user_id_index_found(users.drop_first(), id, i - 1);
    }
}

/// Subjects are globally unique, ids are unique and below the next free
/// one.
pub open spec fn table_wf(t: UserTableView) -> bool {
    &&& forall|i: int, j: int|
        0 <= i < j < t.users.len() ==> t.users[i].subject != t.users[j].subject
    &&& forall|i: int, j: int| 0 <= i < j < t.users.len() ==> t.users[i].id != t.users[j].id
    &&& forall|i: int| 0 <= i < t.users.len() ==> t.users[i].id < t.next_id
}

/// The table an upsert leaves behind: the subject's record refreshed in
/// place, or a fresh record with the next id appended.
pub open spec fn upsert_result(
    t: UserTableView,
    sub: Seq<char>,
    email: Seq<char>,
    name: Seq<char>,
    now: i64,
) -> UserTableView {
    let i = user_index(t.users, sub);
    if i >= 0 {
        UserTableView {
            users: t.users.update(
                i,
                UserRecordView {
                    id: t.users[i].id,
                    subject: sub,
                    email: email,
                    display_name: name,
                    created_at: t.users[i].created_at,
                    updated_at: now,
                },
            ),
            next_id: t.next_id,
        }
    } else {
        UserTableView {
            users: t.users.push(
                UserRecordView {
                    id: t.next_id,
                    subject: sub,
                    email: email,
                    display_name: name,
                    created_at: now,
                    updated_at: now,
                },
            ),
            next_id: (t.next_id + 1) as u64,
        }
    }
}

impl UserTable {
    pub open spec fn wf(&self) -> bool {
        table_wf(self@)
    }

    /// An empty table.
    pub fn new() -> (t: UserTable)
        ensures
            t.wf(),
            t@.users.len() == 0,
            t@.next_id == 0,
    {
        let t = UserTable { users: Vec::new(), next_id: 0 };
        assert(t@.users =~= Seq::<UserRecordView>::empty());
        t
    }

    /// How many users exist.
    pub fn len(&self) -> (n: usize)
        ensures
            n == self@.users.len(),
    {
        self.users.len()
    }

    /// Whether the id space is used up; an upsert of a fresh subject needs
    /// a free id.
    pub fn exhausted(&self) -> (r: bool)
        ensures
            r <==> self@.next_id == u64::MAX,
    {
        self.next_id == u64::MAX
    }

    fn position_by_subject(&self, subject: &String) -> (r: Option<usize>)
        ensures
            r is Some ==> r->0 < self@.users.len() && user_index(self@.users, subject@) == r->0,
            r is None ==> user_index(self@.users, subject@) == -1,
    {
        let n = self.users.len();
        let mut i: usize = 0;
        while i < n
            invariant
                i <= n,
                n == self@.users.len(),
                self@.users.len() == self.users@.len(),
                forall|j: int| 0 <= j < i ==> self@.users[j].subject != subject@,
                forall|j: int| 0 <= j < n ==> self@.users[j] == self.users@[j]@,
            decreases n - i,
        {
            if self.users[i].subject == *subject {
                proof {
                    lemma_user_index_found(self@.users, subject@, i as int);
                }
                return Some(i);
            }
            i = i + 1;
        }
        proof {
            lemma_user_index_bounds(self@.users, subject@);
            if user_index(self@.users, subject@) >= 0 {
                assert(self@.users[user_index(self@.users, subject@)].subject == subject@);
            }
        }
        None
    }

    /// Looks a user up by id.
    pub fn get_user_by_id(&self, id: u64) -> (r: Option<UserRecord>)
        ensures
            r is Some ==> user_id_index(self@.users, id) >= 0 && r->0@ == self@.users[user_id_index(
                self@.users,
                id,
            )],
            r is None ==> user_id_index(self@.users, id) == -1,
    {
        let n = self.users.len();
        let mut i: usize = 0;
        while i < n
            invariant
                i <= n,
                n == self@.users.len(),
                self@.users.len() == self.users@.len(),
                forall|j: int| 0 <= j < i ==> self@.users[j].id != id,
                forall|j: int| 0 <= j < n ==> self@.users[j] == self.users@[j]@,
            decreases n - i,
        {
            if self.users[i].id == id {
                proof {
                    lemma_user_id_index_found(self@.users, id, i as int);
                }
                return Some(self.users[i].duplicate());
            }
            i = i + 1;
        }
        proof {
            lemma_user_id_index_bounds(self@.users, id);
            if user_id_index(self@.users, id) >= 0 {
                assert(self@.users[user_id_index(self@.users, id)].id == id);
            }
        }
        None
    }

    /// Inserts or updates the record for `info.sub`: an existing record
    /// keeps its id and `created_at` and takes the new email and display
    /// name; a missing one is created. The subject stays unique either way.
    pub fn upsert_user(&mut self, info: &UserInfo, now: i64) -> (u: UserRecord)
        requires
            old(self).wf(),
            old(self)@.next_id < u64::MAX,
        ensures
            final(self).wf(),
            final(self)@ == upsert_result(old(self)@, info.sub@, info.email@, info.name@, now),
            u@ == final(self)@.users[user_index(final(self)@.users, info.sub@)],
            user_index(final(self)@.users, info.sub@) >= 0,
    {
        let ghost old_t = self@;
        match self.position_by_subject(&info.sub) {
            Some(i) => {
                let old_rec = self.users.remove(i);
                let new_rec = UserRecord {
                    id: old_rec.id,
                    subject: info.sub.clone(),
                    email: info.email.clone(),
                    display_name: info.name.clone(),
                    created_at: old_rec.created_at,
                    updated_at: now,
                };
                let result = new_rec.duplicate();
                proof {
                    lemma_user_index_bounds(old_t.users, info.sub@);
                }
                self.users.insert(i, new_rec);
                proof {
                    assert(self@.users =~= old_t.users.update(i as int, result@));
                    assert(self@ == upsert_result(old_t, info.sub@, info.email@, info.name@, now));
                    assert(forall|j: int|
                        0 <= j < self@.users.len() && j != i ==> self@.users[j] == old_t.users[j]);
                    lemma_user_index_found(self@.users, info.sub@, i as int);
                }
                result
            },
            None => {
                proof {
                    lemma_user_index_bounds(old_t.users, info.sub@);
                }
                let new_rec = UserRecord {
                    id: self.next_id,
                    subject: info.sub.clone(),
                    email: info.email.clone(),
                    display_name: info.name.clone(),
                    created_at: now,
                    updated_at: now,
                };
                let result = new_rec.duplicate();
                self.users.push(new_rec);
                self.next_id = self.next_id + 1;
                proof {
                    assert(self@.users =~= old_t.users.push(result@));
                    assert(self@ == upsert_result(old_t, info.sub@, info.email@, info.name@, now));
                    assert(forall|j: int|
                        0 <= j < old_t.users.len() ==> self@.users[j] == old_t.users[j]);
                    lemma_user_index_found(self@.users, info.sub@, old_t.users.len() as int);
                }
                result
            },
        }
    }
}

/// Upserting the same subject twice leaves exactly one record for it, and
/// that record's email and display name are those of the second call; the
/// table grows by at most the first call's insertion.
pub proof fn lemma_upsert_idempotent(
    t: UserTableView,
    sub: Seq<char>,
    email1: Seq<char>,
    name1: Seq<char>,
    now1: i64,
    email2: Seq<char>,
    name2: Seq<char>,
    now2: i64,
)
    requires
        table_wf(t),
        t.next_id < u64::MAX,
    ensures
        ({
            let t1 = upsert_result(t, sub, email1, name1, now1);
            let t2 = upsert_result(t1, sub, email2, name2, now2);
            &&& t2.users.len() == t1.users.len()
            &&& user_index(t2.users, sub) >= 0
            &&& t2.users[user_index(t2.users, sub)].email == email2
            &&& t2.users[user_index(t2.users, sub)].display_name == name2
            &&& forall|i: int|
                0 <= i < t2.users.len() && i != user_index(t2.users, sub) ==> t2.users[i].subject
                    != sub
        }),
{
    let t1 = upsert_result(t, sub, email1, name1, now1);
    let t2 = upsert_result(t1, sub, email2, name2, now2);
    lemma_user_index_bounds(t.users, sub);
    let i0 = user_index(t.users, sub);
    if i0 >= 0 {
        assert(t1.users =~= t.users.update(
            i0,
            UserRecordView {
                id: t.users[i0].id,
                subject: sub,
                email: email1,
                display_name: name1,
                created_at: t.users[i0].created_at,
                updated_at: now1,
            },
        ));
        assert(forall|j: int| 0 <= j < i0 ==> t1.users[j].subject != sub);
        lemma_user_index_found(t1.users, sub, i0);
    } else {
        assert(forall|j: int| 0 <= j < t.users.len() ==> t1.users[j] == t.users[j]);
        lemma_user_index_found(t1.users, sub, t.users.len() as int);
    }
    let i1 = user_index(t1.users, sub);
    assert(0 <= i1 < t1.users.len());
    assert(t2.users =~= t1.users.update(
        i1,
        UserRecordView {
            id: t1.users[i1].id,
            subject: sub,
            email: email2,
            display_name: name2,
            created_at: t1.users[i1].created_at,
            updated_at: now2,
        },
    ));
    assert(forall|j: int| 0 <= j < i1 ==> t2.users[j].subject != sub);
    lemma_user_index_found(t2.users, sub, i1);
    lemma_user_index_bounds(t1.users, sub);
    if i0 >= 0 {
        assert(forall|i: int|
            0 <= i < t2.users.len() && i != i1 ==> t2.users[i].subject == t.users[i].subject);
    }
}

} // verus!
