use vstd::prelude::*;

verus! {

/// One stored user record: the unique identity chosen at creation, the
/// slow salted hash of the password (never the plaintext), an optional
/// real name and the administrator flag.
#[derive(Debug)]
pub struct User {
    pub id: String,
    pub pass: String,
    pub first_name: Option<String>,
    pub last_name: Option<String>,
    pub isadmin: bool,
}

/// The data needed to insert a user: the identity, the already-hashed
/// password and the administrator flag.
pub struct NewUser<'a> {
    pub id: &'a str,
    pub pass: &'a str,
    pub first_name: Option<&'a str>,
    pub last_name: Option<&'a str>,
    pub isadmin: &'a bool,
}

/// One attendance window: the subject (`username`), the identity that
/// proposed it (`created_by`), the half-open time window in unix
/// seconds, and the three lifecycle flags.
#[derive(Debug)]
pub struct Schedule {
    pub id: i64,
    pub username: String,
    pub start_time: i64,
    pub end_time: i64,
    pub permitted: bool,
    pub absent: bool,
    pub enable: bool,
    pub created_by: String,
}

/// The closed set of lifecycle states that the three flags encode.
#[derive(Debug, PartialEq, Eq, Structural, Clone, Copy)]
pub enum ScheduleState {
    Proposed,
    Permitted,
    AbsentMarked,
    Disabled,
}

impl Schedule {
    /// Every stored schedule keeps a non-empty window and never marks
    /// absence on an unapproved entry.
    pub open spec fn wf(self) -> bool {
        &&& self.start_time < self.end_time
        &&& self.absent ==> self.permitted
    }

    /// The lifecycle state that the flags of a well-formed schedule encode.
    pub open spec fn state(self) -> ScheduleState {
        if !self.enable {
            ScheduleState::Disabled
        } else if self.absent {
            ScheduleState::AbsentMarked
        } else if self.permitted {
            ScheduleState::Permitted
        } else {
            ScheduleState::Proposed
        }
    }
}

pub(crate) fn clone_opt_string(o: &Option<String>) -> (r: Option<String>)
    ensures
        r == *o,
{
    match o {
        Some(s) => Some(s.clone()),
        None => None,
    }
}

impl Clone for User {
    fn clone(&self) -> (r: Self)
        ensures
            r == *self,
    {
        User {
            id: self.id.clone(),
            pass: self.pass.clone(),
            first_name: clone_opt_string(&self.first_name),
            last_name: clone_opt_string(&self.last_name),
            isadmin: self.isadmin,
        }
    }
}

impl Clone for Schedule {
    fn clone(&self) -> (r: Self)
        ensures
            r == *self,
    {
        Schedule {
            id: self.id,
            username: self.username.clone(),
            start_time: self.start_time,
            end_time: self.end_time,
            permitted: self.permitted,
            absent: self.absent,
            enable: self.enable,
            created_by: self.created_by.clone(),
        }
    }
}

/// The identity and admin flag of a user, as handed to the transport
/// layer when listing accounts.
#[derive(Debug)]
pub struct UserName {
    pub id: String,
    pub isadmin: bool,
}

/// A requested change of a schedule's window.
#[derive(Debug)]
pub struct StartEnd {
    pub start_time: i64,
    pub end_time: i64,
}

/// A requested new schedule: the subject and the window.
#[derive(Debug)]
pub struct StartEndWithUser {
    pub username: String,
    pub start_time: i64,
    pub end_time: i64,
}

/// Character-by-character string equality, usable where the standard
/// comparison has no specification.
pub fn str_eq(a: &str, b: &str) -> (r: bool)
    ensures
        r == (a@ == b@),
{
    let n = a.unicode_len();
    if n != b.unicode_len() {
        return false;
    }
    let mut i: usize = 0;
    while i < n
        invariant
            n == a@.len(),
            n == b@.len(),
            i <= n,
            forall|j: int| 0 <= j < i ==> a@[j] == b@[j],
        decreases n - i,
    {
        if a.get_char(i) != b.get_char(i) {
            return false;
        }
        i += 1;
    }
    proof {
        assert(a@ =~= b@);
    }
    true
}

} // verus!
