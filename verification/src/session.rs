//! Session records and their mathematical views.
//!
//! A session's payload is a tagged pair of the two things the login flow
//! stores: the in-flight authorization attempt and, once authenticated, the
//! user. The durable store keeps the payload serialized; the expiry is a
//! nanosecond timestamp.

use vstd::prelude::*;
use vstd::string::*;

use crate::oauth::LoginAttempt;

verus! {

// ---------------------------------------------------------------------------
// Views
// ---------------------------------------------------------------------------

pub struct AttemptView {
    pub pkce: Seq<char>,
    pub csrf: Seq<char>,
}

impl View for LoginAttempt {
    type V = AttemptView;

    open spec fn view(&self) -> AttemptView {
        AttemptView { pkce: self.pkce@, csrf: self.csrf@ }
    }
}

pub struct UserRecordView {
    pub id: u64,
    pub subject: Seq<char>,
    pub email: Seq<char>,
    pub display_name: Seq<char>,
    pub created_at: i64,
    pub updated_at: i64,
}

pub struct SessionDataView {
    pub attempt: Option<AttemptView>,
    pub user: Option<UserRecordView>,
}

pub struct SessionRecordView {
    pub id: Seq<char>,
    pub data: SessionDataView,
    pub expiry_nanos: i128,
}

// ---------------------------------------------------------------------------
// Records
// ---------------------------------------------------------------------------

/// A local user, keyed by the provider's stable subject identifier.
#[derive(Clone, Debug)]
pub struct UserRecord {
    pub id: u64,
    pub subject: String,
    pub email: String,
    pub display_name: String,
    pub created_at: i64,
    pub updated_at: i64,
}

impl View for UserRecord {
    type V = UserRecordView;

    open spec fn view(&self) -> UserRecordView {
        UserRecordView {
            id: self.id,
            subject: self.subject@,
            email: self.email@,
            display_name: self.display_name@,
            created_at: self.created_at,
            updated_at: self.updated_at,
        }
    }
}

impl UserRecord {
    /// An equal copy (`Clone` on a type with `String` fields says nothing to
    /// the verifier; this does).
    pub fn duplicate(&self) -> (r: UserRecord)
        ensures
            r == *self,
    {
        UserRecord {
            id: self.id,
            subject: self.subject.clone(),
            email: self.email.clone(),
            display_name: self.display_name.clone(),
            created_at: self.created_at,
            updated_at: self.updated_at,
        }
    }
}

/// What a session carries: the in-flight authorization attempt during login
/// and the authenticated user after it.
#[derive(Clone, Debug)]
pub struct SessionData {
    pub attempt: Option<LoginAttempt>,
    pub user: Option<UserRecord>,
}

impl View for SessionData {
    type V = SessionDataView;

    open spec fn view(&self) -> SessionDataView {
        SessionDataView {
            attempt: match self.attempt {
                Some(a) => Some(a@),
                None => None,
            },
            user: match self.user {
                Some(u) => Some(u@),
                None => None,
            },
        }
    }
}

impl SessionData {
    /// The payload of a session nothing has been stored in yet.
    pub fn empty() -> (r: SessionData)
        ensures
            r@.attempt is None,
            r@.user is None,
    {
        SessionData { attempt: None, user: None }
    }

    pub fn duplicate(&self) -> (r: SessionData)
        ensures
            r == *self,
    {
        SessionData {
            attempt: match &self.attempt {
                Some(a) => Some(LoginAttempt { pkce: a.pkce.clone(), csrf: a.csrf.clone() }),
                None => None,
            },
            user: match &self.user {
                Some(u) => Some(u.duplicate()),
                None => None,
            },
        }
    }
}

/// One session: its identifier, its payload, and when it expires.
#[derive(Clone, Debug)]
pub struct SessionRecord {
    pub id: String,
    pub data: SessionData,
    pub expiry_nanos: i128,
}

impl View for SessionRecord {
    type V = SessionRecordView;

    open spec fn view(&self) -> SessionRecordView {
        SessionRecordView { id: self.id@, data: self.data@, expiry_nanos: self.expiry_nanos }
    }
}

impl SessionRecord {
    pub fn duplicate(&self) -> (r: SessionRecord)
        ensures
            r == *self,
    {
        SessionRecord {
            id: self.id.clone(),
            data: self.data.duplicate(),
            expiry_nanos: self.expiry_nanos,
        }
    }
}

/// Whether a nanosecond timestamp fits the durable store's 64-bit column.
pub open spec fn time_ok(time: i128) -> bool {
    i64::MIN <= time <= i64::MAX
}

/// Narrows a nanosecond timestamp to the width the durable store holds.
/// Values outside the 64-bit range are rejected, never truncated.
pub fn convert_time(time: i128) -> (r: Result<i64, crate::errors::StoreError>)
    ensures
        r is Ok <==> time_ok(time),
        r is Ok ==> r->Ok_0 == time,
        r is Err ==> r->Err_0 == crate::errors::StoreError::Encode,
{
    if time >= i64::MIN as i128 && time <= i64::MAX as i128 {
        Ok(time as i64)
    } else {
        Err(crate::errors::StoreError::Encode)
    }
}

} // verus!
