//! Row types for insertions into the application directory, as far as
//! the authentication core writes them.

use vstd::prelude::*;

verus! {

/// A staff member to be created.
#[derive(Clone, Debug)]
pub struct Staff {
    pub email: String,
    pub full_name: String,
    pub is_admin: bool,
}

/// A student to be created.
#[derive(Clone, Debug)]
pub struct Student {
    pub email: String,
    pub full_name: String,
    pub last_session: i32,
}

/// A project to be created.
#[derive(Clone, Debug)]
pub struct Project {
    pub session: i32,
    pub supervisor_name: String,
    pub supervisor_email: String,
    pub name: String,
    pub description_md: String,
}

/// A project to be created, together with its additional staff names.
#[derive(Clone, Debug)]
pub struct ProjectWithStaff {
    pub supervisor_name: String,
    pub supervisor_email: String,
    pub name: String,
    pub description_md: String,
    pub additional_staff: Vec<String>,
}

/// One additional staff assignment to be created.
#[derive(Clone, Debug)]
pub struct ProjectStaff {
    pub project: i32,
    pub staff: String,
}

/// A student comment to be created.
#[derive(Clone, Debug)]
pub struct StudentComment {
    pub student: i32,
    pub session: i32,
    pub comment: Option<String>,
}

/// A student bookmark to be created.
#[derive(Clone, Debug)]
pub struct StudentMark {
    pub student: i32,
    pub project: i32,
}

impl Project {
    /// Strips the staff list off a project to be created and pins it to
    /// a session.
    pub fn from_with_staff(p: ProjectWithStaff, session: i32) -> (r: Self)
        ensures
            r.session == session,
            r.supervisor_name == p.supervisor_name,
            r.supervisor_email == p.supervisor_email,
            r.name == p.name,
            r.description_md == p.description_md,
    {
        Project {
            session,
            supervisor_name: p.supervisor_name,
            supervisor_email: p.supervisor_email,
            name: p.name,
            description_md: p.description_md,
        }
    }
}

} // verus!
