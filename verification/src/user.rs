//! The application's own view of an authenticated principal.
//!
//! A federated or directory backend proves who a caller is; the
//! application still requires that identity to exist in its own user
//! directory. A principal is either a staff member or a student; staff
//! take precedence when an email occurs in both tables.

use crate::models::{Staff, Student};
use vstd::prelude::*;

verus! {

/// A recognized application user.
#[derive(Clone, Debug)]
pub enum User {
    Student(Student),
    Staff(Staff),
}

impl User {
    /// The externally visible email address of the user.
    pub open spec fn email_view(&self) -> Seq<char> {
        match self {
            User::Staff(s) => s.email@,
            User::Student(s) => s.email@,
        }
    }

    /// The user's full name.
    pub open spec fn full_name_view(&self) -> Seq<char> {
        match self {
            User::Staff(s) => s.full_name@,
            User::Student(s) => s.full_name@,
        }
    }

    /// The externally visible email address of the user.
    pub fn email(&self) -> (r: String)
        ensures
            r@ == self.email_view(),
    {
        match self {
            User::Staff(s) => s.email.clone(),
            User::Student(s) => s.email.clone(),
        }
    }

    /// The user's full name.
    pub fn full_name(&self) -> (r: String)
        ensures
            r@ == self.full_name_view(),
    {
        match self {
            User::Staff(s) => s.full_name.clone(),
            User::Student(s) => s.full_name.clone(),
        }
    }
}

/// Combines the two directory lookups for one email into the
/// recognized user, staff taking precedence; an email in neither
/// table is no user.
pub fn resolve_user(staff_row: Option<Staff>, student_row: Option<Student>) -> (r: Option<User>)
    ensures
        r == (match staff_row {
            Some(s) => Some(User::Staff(s)),
            None => match student_row {
                Some(s) => Some(User::Student(s)),
                None => None::<User>,
            },
        }),
{
    match staff_row {
        Some(s) => Some(User::Staff(s)),
        None => match student_row {
            Some(s) => Some(User::Student(s)),
            None => None,
        },
    }
}

} // verus!
